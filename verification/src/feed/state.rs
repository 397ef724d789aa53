//! The in-memory snapshot of visible notifications.

use vstd::prelude::*;

use crate::model::NotificationView;

use super::FeedSignal;

verus! {

/// In-memory snapshot of visible notifications from the provider feed.
#[derive(Debug, Clone, PartialEq, Eq)]
pub struct NotificationState {
    items: Vec<NotificationView>,
}

#[derive(Debug, Clone, Copy, PartialEq, Eq, Structural)]
pub enum FeedSignalKind {
    Items,
    Reload,
}

impl View for NotificationState {
    type V = Seq<NotificationView>;

    closed spec fn view(&self) -> Seq<NotificationView> {
        self.items@
    }
}

/// The snapshot a signal leaves behind: a new item list replaces the old one,
/// a reload keeps it.
pub open spec fn spec_after_signal(
    items: Seq<NotificationView>,
    signal: FeedSignal,
) -> Seq<NotificationView> {
    match signal {
        FeedSignal::Items(v) => v@,
        FeedSignal::Reload => items,
    }
}

/// The snapshot after a batch of signals, applied in order: the last item
/// list wins, reloads keep what is there.
pub open spec fn spec_after_signals(
    items: Seq<NotificationView>,
    signals: Seq<FeedSignal>,
) -> Seq<NotificationView>
    decreases signals.len(),
{
    if signals.len() == 0 {
        items
    } else {
        spec_after_signal(spec_after_signals(items, signals.drop_last()), signals.last())
    }
}

/// How many of `signals` are reloads.
pub open spec fn reload_count(signals: Seq<FeedSignal>) -> nat
    decreases signals.len(),
{
    if signals.len() == 0 {
        0
    } else {
        reload_count(signals.drop_last()) + if signals.last() is Reload {
            1nat
        } else {
            0nat
        }
    }
}

/// What draining a batch of feed signals calls for.
#[derive(Debug, Clone, Copy, PartialEq, Eq, Structural)]
pub struct DrainOutcome {
    /// How many reloads the batch asked for (each one re-reads the style source).
    pub reloads: usize,
    /// Whether any signal arrived, so the stack must be synced again.
    pub changed: bool,
}

impl Default for NotificationState {
    fn default() -> (r: Self)
        ensures
            r@ == Seq::<NotificationView>::empty(),
    {
        NotificationState::new()
    }
}

impl NotificationState {
    /// An empty snapshot.
    pub fn new() -> (r: Self)
        ensures
            r@ == Seq::<NotificationView>::empty(),
    {
        NotificationState { items: Vec::new() }
    }

    pub fn items(&self) -> (r: &[NotificationView])
        ensures
            r@ == self@,
    {
        self.items.as_slice()
    }

    pub fn len(&self) -> (r: usize)
        ensures
            r == self@.len(),
    {
        self.items.len()
    }

    pub fn is_empty(&self) -> (r: bool)
        ensures
            r == (self@.len() == 0),
    {
        self.items.len() == 0
    }

    pub fn replace(&mut self, items: Vec<NotificationView>)
        ensures
            final(self)@ == items@,
    {
        self.items = items;
    }

    pub fn apply_signal(&mut self, signal: FeedSignal) -> (r: FeedSignalKind)
        ensures
            final(self)@ == spec_after_signal(old(self)@, signal),
            r == (match signal {
                FeedSignal::Items(_) => FeedSignalKind::Items,
                FeedSignal::Reload => FeedSignalKind::Reload,
            }),
    {
        match signal {
            FeedSignal::Items(items) => {
                self.replace(items);
                FeedSignalKind::Items
            },
            FeedSignal::Reload => FeedSignalKind::Reload,
        }
    }

    /// Apply a batch of signals in order.
    pub fn apply_signals(&mut self, signals: Vec<FeedSignal>) -> (r: DrainOutcome)
        ensures
            final(self)@ == spec_after_signals(old(self)@, signals@),
            r.reloads == reload_count(signals@),
            r.changed == (signals@.len() > 0),
    {
        let ghost all = signals@;
        let ghost start = self@;
        let n = signals.len();
        let changed = n > 0;
        let mut rest = signals;
        let mut reloads: usize = 0;
        let mut k: usize = 0;
        while k < n
            invariant
                n == all.len(),
                k <= n,
                rest@ == all.subrange(k as int, n as int),
                self@ == spec_after_signals(start, all.subrange(0, k as int)),
                reloads == reload_count(all.subrange(0, k as int)),
                reloads <= k,
            decreases n - k,
        {
            let sig = rest.remove(0);
            proof {
                assert(sig == all[k as int]);
                let next = all.subrange(0, k + 1);
                assert(next.drop_last() =~= all.subrange(0, k as int));
                assert(next.last() == all[k as int]);
            }
            match self.apply_signal(sig) {
                FeedSignalKind::Reload => {
                    reloads = reloads + 1;
                },
                FeedSignalKind::Items => {},
            }
            k = k + 1;
        }
        assert(all.subrange(0, n as int) =~= all);
        DrainOutcome { reloads, changed }
    }
}

/// What is read back after a replace is what was written, whatever the state
/// held before; a reload signal never changes the snapshot.
pub proof fn law_replace_then_read(
    before: Seq<NotificationView>,
    items: Vec<NotificationView>,
)
    ensures
        spec_after_signal(before, FeedSignal::Items(items)) == items@,
        spec_after_signal(before, FeedSignal::Reload) == before,
{
}

} // verus!
