//! Decisions of the Wayland surface loop, kept apart from the protocol
//! objects: layer parsing, output filtering, which surfaces to drop, how to
//! update a live surface, what to paint on configure, and what a pointer or
//! touch gesture asks of the provider.

use vstd::prelude::*;

use crate::feed::command::{CommandError, CommandLine, activate, close, command_line_is, input};
use crate::feed::provider::ProviderSpec;
use crate::model::NotificationView;
use crate::render::Frame;
use super::anchor::Corner;
use super::stack::{spec_stack_offsets, stack_offsets};
use crate::text::{ascii_lower_chars, ascii_lower_seq, chars_eq, chars_of, decimal_seq, str_is, trim, trim_chars};

verus! {

/// Layer-shell layer of the card surfaces (`[layer].layer`).
#[derive(Debug, Clone, Copy, PartialEq, Eq, Structural)]
pub enum LayerKind {
    Background,
    Bottom,
    Top,
    Overlay,
}

/// The layer a config word names (trimmed, ASCII case-insensitive);
/// unknown words mean `overlay`.
pub open spec fn spec_parse_layer(s: Seq<char>) -> LayerKind {
    let k = ascii_lower_seq(trim(s));
    if k == "background"@ {
        LayerKind::Background
    } else if k == "bottom"@ {
        LayerKind::Bottom
    } else if k == "top"@ {
        LayerKind::Top
    } else {
        LayerKind::Overlay
    }
}

pub fn parse_layer(layer: &str) -> (r: LayerKind)
    ensures
        r == spec_parse_layer(layer@),
{
    let k = ascii_lower_chars(&trim_chars(&chars_of(layer)));
    if chars_eq(&k, &chars_of("background")) {
        LayerKind::Background
    } else if chars_eq(&k, &chars_of("bottom")) {
        LayerKind::Bottom
    } else if chars_eq(&k, &chars_of("top")) {
        LayerKind::Top
    } else {
        LayerKind::Overlay
    }
}

/// Whether an output gets a card stack: every output when `[layer].output`
/// is empty, otherwise only the output whose advertised name equals it.
pub open spec fn spec_output_matches(filter: Seq<char>, name: Option<Seq<char>>) -> bool {
    filter.len() == 0 || name == Some(filter)
}

pub fn output_matches(filter: &str, name: Option<&str>) -> (r: bool)
    ensures
        r == spec_output_matches(
            filter@,
            match name {
                Some(n) => Some(n@),
                None => None,
            },
        ),
{
    if filter.unicode_len() == 0 {
        return true;
    }
    match name {
        Some(n) => str_is(n, filter),
        None => false,
    }
}

/// An output's name as an optional character sequence.
pub open spec fn opt_view(o: Option<String>) -> Option<Seq<char>> {
    match o {
        Some(s) => Some(s@),
        None => None,
    }
}

/// Registry keys of the eligible outputs, in the given order.
pub open spec fn spec_eligible(outputs: Seq<(u32, Option<String>)>, filter: Seq<char>) -> Seq<u32>
    decreases outputs.len(),
{
    if outputs.len() == 0 {
        Seq::empty()
    } else {
        let rest = spec_eligible(outputs.drop_last(), filter);
        let (key, name) = outputs.last();
        if spec_output_matches(filter, opt_view(name)) {
            rest.push(key)
        } else {
            rest
        }
    }
}

/// `wl_registry` names of the outputs that should get a card stack.
pub fn eligible_output_keys(outputs: &Vec<(u32, Option<String>)>, filter: &str) -> (r: Vec<u32>)
    ensures
        r@ == spec_eligible(outputs@, filter@),
{
    let mut keys: Vec<u32> = Vec::new();
    let mut i: usize = 0;
    while i < outputs.len()
        invariant
            i <= outputs.len(),
            keys@ == spec_eligible(outputs@.subrange(0, i as int), filter@),
        decreases outputs.len() - i,
    {
        let key = outputs[i].0;
        let ok = match &outputs[i].1 {
            Some(n) => output_matches(filter, Some(n.as_str())),
            None => output_matches(filter, None),
        };
        proof {
            assert(outputs@.subrange(0, i + 1).drop_last() =~= outputs@.subrange(0, i as int));
            assert(outputs@.subrange(0, i + 1).last() == outputs@[i as int]);
        }
        if ok {
            keys.push(key);
        }
        i = i + 1;
    }
    assert(outputs@.subrange(0, outputs@.len() as int) =~= outputs@);
    keys
}

/// Whether `v` holds `x`.
fn contains_u32(v: &Vec<u32>, x: u32) -> (r: bool)
    ensures
        r == v@.contains(x),
{
    let mut i: usize = 0;
    while i < v.len()
        invariant
            i <= v.len(),
            forall|k: int| 0 <= k < i ==> v@[k] != x,
        decreases v.len() - i,
    {
        if v[i] == x {
            assert(v@[i as int] == x);
            return true;
        }
        i = i + 1;
    }
    false
}

/// Whether a live surface `(output, id)` is still wanted: its output is
/// eligible and its notification is still visible.
pub open spec fn keep_key(key: (u32, u32), output_keys: Seq<u32>, ids: Seq<u32>) -> bool {
    output_keys.contains(key.0) && ids.contains(key.1)
}

/// The live surfaces that are no longer wanted, in the given order.
pub open spec fn spec_stale(existing: Seq<(u32, u32)>, output_keys: Seq<u32>, ids: Seq<u32>) -> Seq<
    (u32, u32),
>
    decreases existing.len(),
{
    if existing.len() == 0 {
        Seq::empty()
    } else {
        let rest = spec_stale(existing.drop_last(), output_keys, ids);
        if keep_key(existing.last(), output_keys, ids) {
            rest
        } else {
            rest.push(existing.last())
        }
    }
}

/// Keys `(output, notification id)` of live surfaces to destroy after a
/// snapshot change.
pub fn stale_surface_keys(existing: &Vec<(u32, u32)>, output_keys: &Vec<u32>, ids: &Vec<u32>) -> (r:
    Vec<(u32, u32)>)
    ensures
        r@ == spec_stale(existing@, output_keys@, ids@),
{
    let mut out: Vec<(u32, u32)> = Vec::new();
    let mut i: usize = 0;
    while i < existing.len()
        invariant
            i <= existing.len(),
            out@ == spec_stale(existing@.subrange(0, i as int), output_keys@, ids@),
        decreases existing.len() - i,
    {
        let key = existing[i];
        proof {
            assert(existing@.subrange(0, i + 1).drop_last() =~= existing@.subrange(0, i as int));
            assert(existing@.subrange(0, i + 1).last() == existing@[i as int]);
        }
        if !(contains_u32(output_keys, key.0) && contains_u32(ids, key.1)) {
            out.push(key);
        }
        i = i + 1;
    }
    assert(existing@.subrange(0, existing@.len() as int) =~= existing@);
    out
}

/// The live surfaces shown on output `output`, in the given order.
pub open spec fn spec_on_output(existing: Seq<(u32, u32)>, output: u32) -> Seq<(u32, u32)>
    decreases existing.len(),
{
    if existing.len() == 0 {
        Seq::empty()
    } else {
        let rest = spec_on_output(existing.drop_last(), output);
        if existing.last().0 == output {
            rest.push(existing.last())
        } else {
            rest
        }
    }
}

/// Keys `(output, notification id)` of the live surfaces to destroy when
/// output `output` goes away.
pub fn surfaces_on_output(existing: &Vec<(u32, u32)>, output: u32) -> (r: Vec<(u32, u32)>)
    ensures
        r@ == spec_on_output(existing@, output),
{
    let mut out: Vec<(u32, u32)> = Vec::new();
    let mut i: usize = 0;
    while i < existing.len()
        invariant
            i <= existing.len(),
            out@ == spec_on_output(existing@.subrange(0, i as int), output),
        decreases existing.len() - i,
    {
        let key = existing[i];
        proof {
            assert(existing@.subrange(0, i + 1).drop_last() =~= existing@.subrange(0, i as int));
            assert(existing@.subrange(0, i + 1).last() == existing@[i as int]);
        }
        if key.0 == output {
            out.push(key);
        }
        i = i + 1;
    }
    assert(existing@.subrange(0, existing@.len() as int) =~= existing@);
    out
}

/// `(top, right, bottom, left)` layer-surface margins.
#[derive(Debug, Clone, Copy, PartialEq, Eq, Structural)]
pub struct Margins {
    pub top: i32,
    pub right: i32,
    pub bottom: i32,
    pub left: i32,
}

impl Margins {
    /// Margins from a `(top, right, bottom, left)` tuple.
    pub fn from_tuple(m: (i32, i32, i32, i32)) -> (r: Margins)
        ensures
            r == (Margins { top: m.0, right: m.1, bottom: m.2, left: m.3 }),
    {
        Margins { top: m.0, right: m.1, bottom: m.2, left: m.3 }
    }
}

/// What a live layer surface has asked of the compositor so far.
#[derive(Debug, Clone, Copy, PartialEq, Eq, Structural)]
pub struct SurfaceState {
    /// Last size requested via `set_size`.
    pub requested_w: u32,
    pub requested_h: u32,
    /// Whether a configure has been acked for the requested size.
    pub configured: bool,
    /// Margins last set.
    pub margin: Margins,
}

/// How to bring a surface up to date with a freshly rendered frame.
#[derive(Debug, Clone, Copy, PartialEq, Eq, Structural)]
pub struct UpsertPlan {
    /// Create the surface (it does not exist yet).
    pub create: bool,
    /// Send `set_margin` with the new margins.
    pub set_margin: bool,
    /// Send `set_size` with the frame size.
    pub set_size: bool,
    /// Paint the frame now (the surface is configured at this size).
    pub paint_now: bool,
    /// Keep the frame to paint on the next configure.
    pub keep_pending: bool,
    /// Commit the surface.
    pub commit: bool,
    /// The surface state afterwards.
    pub next: SurfaceState,
}

/// Whether the surface must be (re)sized: it does not exist yet, or the
/// size it last asked for is not `w` × `h`.
pub open spec fn needs_resize(cur: Option<SurfaceState>, w: u32, h: u32) -> bool {
    match cur {
        None => true,
        Some(s) => s.requested_w != w || s.requested_h != h,
    }
}

/// `p` is the plan for a surface in state `cur` (`None`: no surface yet) and
/// a frame of `w` × `h` at margins `margin`:
/// - the surface is created exactly when there is none;
/// - margins are sent when the surface is new or they changed;
/// - the size is requested when the surface is new or its size changed;
/// - the frame is painted at once exactly when the surface is configured at
///   that size, and is otherwise kept for the next configure;
/// - the surface is committed when its size is requested, or when only new
///   margins are sent to a surface still waiting for its configure;
/// - afterwards the surface has asked for `w` × `h` at `margin`, and is
///   configured only if it was and its size did not change.
pub open spec fn plan_is(
    p: UpsertPlan,
    cur: Option<SurfaceState>,
    w: u32,
    h: u32,
    margin: Margins,
) -> bool {
    let resize = needs_resize(cur, w, h);
    let ready = !resize && cur->0.configured;
    let margin_sent = cur is None || cur->0.margin != margin;
    &&& p.create == (cur is None)
    &&& p.set_margin == margin_sent
    &&& p.set_size == resize
    &&& p.paint_now == ready
    &&& p.keep_pending == !ready
    &&& p.commit == (resize || (!ready && margin_sent))
    &&& p.next == SurfaceState { requested_w: w, requested_h: h, configured: ready, margin }
}

pub fn plan_upsert(cur: Option<SurfaceState>, w: u32, h: u32, margin: Margins) -> (r:
    UpsertPlan)
    ensures
        plan_is(r, cur, w, h, margin),
{
    match cur {
        None => UpsertPlan {
            create: true,
            set_margin: true,
            set_size: true,
            paint_now: false,
            keep_pending: true,
            commit: true,
            next: SurfaceState { requested_w: w, requested_h: h, configured: false, margin },
        },
        Some(s) => {
            let size_changed = s.requested_w != w || s.requested_h != h;
            let margin_changed = s.margin != margin;
            if size_changed {
                UpsertPlan {
                    create: false,
                    set_margin: margin_changed,
                    set_size: true,
                    paint_now: false,
                    keep_pending: true,
                    commit: true,
                    next: SurfaceState { requested_w: w, requested_h: h, configured: false, margin },
                }
            } else if s.configured {
                UpsertPlan {
                    create: false,
                    set_margin: margin_changed,
                    set_size: false,
                    paint_now: true,
                    keep_pending: false,
                    commit: false,
                    next: SurfaceState {
                        requested_w: s.requested_w,
                        requested_h: s.requested_h,
                        configured: s.configured,
                        margin,
                    },
                }
            } else {
                UpsertPlan {
                    create: false,
                    set_margin: margin_changed,
                    set_size: false,
                    paint_now: false,
                    keep_pending: true,
                    commit: margin_changed,
                    next: SurfaceState {
                        requested_w: s.requested_w,
                        requested_h: s.requested_h,
                        configured: s.configured,
                        margin,
                    },
                }
            }
        },
    }
}

/// What to paint when the compositor configures a surface.
#[derive(Debug, Clone, Copy, PartialEq, Eq, Structural)]
pub enum ConfigurePaint {
    /// The pending frame has exactly the configured size: paint it.
    PendingFrame,
    /// Paint a solid fallback of this size (no pending frame, or a size
    /// other than the one requested).
    Fallback { width: u32, height: u32 },
}

/// The paint for a configure of `width` × `height` (zero meaning "your
/// choice", read as 1) when the pending frame, if any, is `pending_w` ×
/// `pending_h`.
pub fn configure_paint(pending: Option<(u32, u32)>, width: u32, height: u32) -> (r: ConfigurePaint)
    ensures
        ({
            let w = if width == 0 {
                1
            } else {
                width
            };
            let h = if height == 0 {
                1
            } else {
                height
            };
            match pending {
                Some((pw, ph)) if pw == w && ph == h => r == ConfigurePaint::PendingFrame,
                _ => r == (ConfigurePaint::Fallback { width: w, height: h }),
            }
        }),
{
    let w = if width == 0 {
        1
    } else {
        width
    };
    let h = if height == 0 {
        1
    } else {
        height
    };
    match pending {
        Some((pw, ph)) => {
            if pw == w && ph == h {
                ConfigurePaint::PendingFrame
            } else {
                ConfigurePaint::Fallback { width: w, height: h }
            }
        },
        None => ConfigurePaint::Fallback { width: w, height: h },
    }
}

/// A `width` × `height` frame filled with one BGRA colour.
pub fn solid_frame(width: u32, height: u32, bgra: [u8; 4]) -> (r: Frame)
    requires
        4 * width <= i32::MAX,
        4 * width * height <= isize::MAX,
    ensures
        r.width == width,
        r.height == height,
        r.stride == 4 * width,
        r.data@.len() == 4 * width * height,
        forall|i: int| 0 <= i < r.data@.len() ==> #[trigger] r.data@[i] == bgra@[i % 4],
{
    let stride: u32 = width * 4;
    assert((stride as int) * (height as int) == 4 * width * height) by (nonlinear_arith)
        requires
            stride == width * 4,
    ;
    let size: usize = (stride as usize) * (height as usize);
    assert(size == (width * height) * 4) by (nonlinear_arith)
        requires
            size == (width * 4) * height,
    ;
    proof {
        vstd::arithmetic::div_mod::lemma_mod_multiples_basic((width * height) as int, 4);
    }
    let mut data: Vec<u8> = Vec::new();
    let mut i: usize = 0;
    while i < size
        invariant
            i <= size,
            size % 4 == 0,
            i % 4 == 0,
            data@.len() == i,
            forall|j: int| 0 <= j < i ==> #[trigger] data@[j] == bgra@[j % 4],
        decreases size - i,
    {
        data.push(bgra[0]);
        data.push(bgra[1]);
        data.push(bgra[2]);
        data.push(bgra[3]);
        i = i + 4;
    }
    Frame { width, height, stride: stride as i32, data }
}

/// Pointer button codes (`linux/input-event-codes.h`).
pub const BTN_LEFT: u32 = 0x110;

pub const BTN_RIGHT: u32 = 0x111;

pub const BTN_MIDDLE: u32 = 0x112;

/// A gesture reported to the provider with `input <id> <kind>`.
#[derive(Debug, Clone, Copy, PartialEq, Eq, Structural)]
pub enum GestureKind {
    ButtonLeft,
    ButtonMiddle,
    ButtonRight,
    Touch,
}

impl GestureKind {
    /// The wire name of the gesture.
    pub open spec fn spec_wire_name(self) -> Seq<char> {
        match self {
            GestureKind::ButtonLeft => "button_left"@,
            GestureKind::ButtonMiddle => "button_middle"@,
            GestureKind::ButtonRight => "button_right"@,
            GestureKind::Touch => "touch"@,
        }
    }

    pub fn wire_name(self) -> (r: &'static str)
        ensures
            r@ == self.spec_wire_name(),
    {
        match self {
            GestureKind::ButtonLeft => "button_left",
            GestureKind::ButtonMiddle => "button_middle",
            GestureKind::ButtonRight => "button_right",
            GestureKind::Touch => "touch",
        }
    }
}

/// A gesture-triggered provider mutation.
#[derive(Debug, Clone, Copy, PartialEq, Eq, Structural)]
pub enum ProviderAction {
    /// Whole-card shortcut: dismiss a notification without actions.
    Close(u32),
    /// Whole-card shortcut: run the default action.
    Activate(u32),
    /// Gesture report.
    Input(u32, GestureKind),
}

/// Whether some visible notification has id `id` and advertises actions.
pub open spec fn has_actions_for(items: Seq<NotificationView>, id: u32) -> bool {
    exists|k: int| 0 <= k < items.len() && #[trigger] items[k].id == id && items[k].has_actions
}

/// What a released pointer button on card `id` asks for: a left click
/// activates a notification with actions and closes one without, right and
/// middle clicks are reported as gestures, other buttons do nothing.
pub open spec fn spec_pointer_action(items: Seq<NotificationView>, id: u32, button: u32) -> Option<
    ProviderAction,
> {
    if button == BTN_LEFT {
        if has_actions_for(items, id) {
            Some(ProviderAction::Activate(id))
        } else {
            Some(ProviderAction::Close(id))
        }
    } else if button == BTN_RIGHT {
        Some(ProviderAction::Input(id, GestureKind::ButtonRight))
    } else if button == BTN_MIDDLE {
        Some(ProviderAction::Input(id, GestureKind::ButtonMiddle))
    } else {
        None
    }
}

/// The provider action for a released pointer button on card `id`.
pub fn handle_pointer_click(items: &[NotificationView], id: u32, button: u32) -> (r: Option<
    ProviderAction,
>)
    ensures
        r == spec_pointer_action(items@, id, button),
{
    if button == BTN_LEFT {
        let mut has = false;
        let mut k: usize = 0;
        while k < items.len()
            invariant
                k <= items@.len(),
                has == exists|j: int| 0 <= j < k && #[trigger] items@[j].id == id && items@[j].has_actions,
            decreases items@.len() - k,
        {
            if items[k].id == id && items[k].has_actions {
                has = true;
            }
            k = k + 1;
        }
        if has {
            Some(ProviderAction::Activate(id))
        } else {
            Some(ProviderAction::Close(id))
        }
    } else if button == BTN_RIGHT {
        Some(ProviderAction::Input(id, GestureKind::ButtonRight))
    } else if button == BTN_MIDDLE {
        Some(ProviderAction::Input(id, GestureKind::ButtonMiddle))
    } else {
        None
    }
}

/// A touch on card `id` is reported as a `touch` gesture.
pub fn handle_touch_down(id: u32) -> (r: ProviderAction)
    ensures
        r == ProviderAction::Input(id, GestureKind::Touch),
{
    ProviderAction::Input(id, GestureKind::Touch)
}

/// The provider command line an action runs.
pub fn action_command(spec: &ProviderSpec, action: ProviderAction) -> (r: Result<
    CommandLine,
    CommandError,
>)
    ensures
        command_line_is(
            r,
            *spec,
            match action {
                ProviderAction::Close(id) => seq!["close"@, decimal_seq(id as nat)],
                ProviderAction::Activate(id) => seq!["activate"@, decimal_seq(id as nat)],
                ProviderAction::Input(id, kind) => seq![
                    "input"@,
                    decimal_seq(id as nat),
                    kind.spec_wire_name(),
                ],
            },
        ),
{
    match action {
        ProviderAction::Close(id) => close(spec, id),
        ProviderAction::Activate(id) => activate(spec, id, None),
        ProviderAction::Input(id, kind) => input(spec, id, kind.wire_name()),
    }
}

/// A Wayland global the overlay binds.
#[derive(Debug, Clone, Copy, PartialEq, Eq, Structural)]
pub enum GlobalKind {
    Compositor,
    Shm,
    LayerShell,
    Seat,
    Output,
}

/// `a` or `cap`, whichever is smaller.
pub open spec fn capped(a: u32, cap: u32) -> u32 {
    if a <= cap {
        a
    } else {
        cap
    }
}

/// Which advertised global to bind, and at which version: the advertised
/// version, capped at the highest one this client speaks for that
/// interface; other interfaces are not bound.
pub open spec fn spec_global_binding(interface: Seq<char>, version: u32) -> Option<(GlobalKind, u32)> {
    if interface == "wl_compositor"@ {
        Some((GlobalKind::Compositor, capped(version, 5)))
    } else if interface == "wl_shm"@ {
        Some((GlobalKind::Shm, capped(version, 1)))
    } else if interface == "zwlr_layer_shell_v1"@ {
        Some((GlobalKind::LayerShell, capped(version, 4)))
    } else if interface == "wl_seat"@ {
        Some((GlobalKind::Seat, capped(version, 7)))
    } else if interface == "wl_output"@ {
        Some((GlobalKind::Output, capped(version, 4)))
    } else {
        None
    }
}

/// The binding for an advertised global.
pub fn global_binding(interface: &str, version: u32) -> (r: Option<(GlobalKind, u32)>)
    ensures
        r == spec_global_binding(interface@, version),
{
    let cap = |c: u32| -> (m: u32)
        ensures
            m == capped(version, c),
        {
            if version <= c {
                version
            } else {
                c
            }
        };
    if str_is(interface, "wl_compositor") {
        Some((GlobalKind::Compositor, cap(5)))
    } else if str_is(interface, "wl_shm") {
        Some((GlobalKind::Shm, cap(1)))
    } else if str_is(interface, "zwlr_layer_shell_v1") {
        Some((GlobalKind::LayerShell, cap(4)))
    } else if str_is(interface, "wl_seat") {
        Some((GlobalKind::Seat, cap(7)))
    } else if str_is(interface, "wl_output") {
        Some((GlobalKind::Output, cap(4)))
    } else {
        None
    }
}

/// The output version from which outputs announce their names.
pub const OUTPUT_NAME_VERSION: u32 = 4;

/// What the pointer reports, as far as the cards care.
#[derive(Debug, Clone, Copy, PartialEq, Eq, Structural)]
pub enum PointerEvent {
    /// The pointer entered a surface; `card` is the notification id of the
    /// card shown there, when it is one of the cards.
    Enter { card: Option<u32> },
    /// The pointer left the focused surface.
    Leave,
    /// A button changed state.
    Button { button: u32, released: bool },
    /// Anything else (motion, axis, frame, …).
    Other,
}

/// The pointer focus after `event`, and the provider action it triggers:
/// entering a card focuses its notification, leaving drops the focus, and a
/// released button on a focused card acts as `spec_pointer_action` says.
pub open spec fn spec_pointer_step(
    items: Seq<NotificationView>,
    focus: Option<u32>,
    event: PointerEvent,
) -> (Option<u32>, Option<ProviderAction>) {
    match event {
        PointerEvent::Enter { card } => (card, None),
        PointerEvent::Leave => (None, None),
        PointerEvent::Button { button, released } => (
            focus,
            match focus {
                Some(id) if released => spec_pointer_action(items, id, button),
                _ => None,
            },
        ),
        PointerEvent::Other => (focus, None),
    }
}

/// Track the pointer focus and turn a click into a provider action.
pub fn pointer_step(items: &[NotificationView], focus: Option<u32>, event: PointerEvent) -> (r: (
    Option<u32>,
    Option<ProviderAction>,
))
    ensures
        r == spec_pointer_step(items@, focus, event),
{
    match event {
        PointerEvent::Enter { card } => (card, None),
        PointerEvent::Leave => (None, None),
        PointerEvent::Button { button, released } => {
            let action = match focus {
                Some(id) => {
                    if released {
                        handle_pointer_click(items, id, button)
                    } else {
                        None
                    }
                },
                None => None,
            };
            (focus, action)
        },
        PointerEvent::Other => (focus, None),
    }
}

/// The pointer focus once the surface of card `key` is gone: dropped when it
/// was on that notification.
pub fn focus_after_close(focus: Option<u32>, key: (u32, u32)) -> (r: Option<u32>)
    ensures
        r == (if focus == Some(key.1) {
            None
        } else {
            focus
        }),
{
    match focus {
        Some(id) => {
            if id == key.1 {
                None
            } else {
                Some(id)
            }
        },
        None => None,
    }
}

/// The layer-surface margins of a card `offset` pixels from the anchored
/// edge, as `Corner::margins` gives them.
pub open spec fn spec_margins(corner: Corner, base_margin: u32, offset: u32) -> Margins {
    Margins {
        top: if corner.spec_is_top() {
            offset as i32
        } else {
            0
        },
        right: if corner.spec_is_right() {
            base_margin as i32
        } else {
            0
        },
        bottom: if corner.spec_is_top() {
            0
        } else {
            offset as i32
        },
        left: if corner.spec_is_right() {
            0
        } else {
            base_margin as i32
        },
    }
}

/// Where one rendered card goes: its notification and its margins.
#[derive(Debug, Clone, Copy, PartialEq, Eq, Structural)]
pub struct CardPlacement {
    pub id: u32,
    pub margin: Margins,
}

/// What a stack sync does: the live surfaces to destroy, and the placement of
/// each rendered card, in stacking order (each placed on every eligible output).
#[derive(Debug, Clone, PartialEq, Eq)]
pub struct SyncPlan {
    pub stale: Vec<(u32, u32)>,
    pub cards: Vec<CardPlacement>,
}

/// The heights of the rendered cards, in order.
pub open spec fn rendered_heights(rendered: Seq<(u32, u32)>) -> Seq<u32> {
    Seq::new(rendered.len(), |k: int| rendered[k].1)
}

/// Plan a stack sync: `existing` are the live surface keys, `output_keys` the
/// eligible outputs, `ids` the visible notifications, and `rendered` the
/// `(id, height)` of each card that rendered, in stacking order. Surfaces not
/// wanted any more are dropped; each rendered card gets the margins of its
/// stacking offset (`base_margin`, then earlier heights plus one `gap` each)
/// at `corner`.
pub fn sync_plan(
    existing: &Vec<(u32, u32)>,
    output_keys: &Vec<u32>,
    ids: &Vec<u32>,
    rendered: &Vec<(u32, u32)>,
    corner: Corner,
    gap: u32,
    base_margin: u32,
) -> (r: SyncPlan)
    ensures
        r.stale@ == spec_stale(existing@, output_keys@, ids@),
        r.cards@.len() == rendered@.len(),
        forall|k: int|
            0 <= k < rendered@.len() ==> #[trigger] r.cards@[k] == (CardPlacement {
                id: rendered@[k].0,
                margin: spec_margins(
                    corner,
                    base_margin,
                    spec_stack_offsets(rendered_heights(rendered@), gap, base_margin)[k],
                ),
            }),
{
    let stale = stale_surface_keys(existing, output_keys, ids);
    let mut heights: Vec<u32> = Vec::new();
    let mut i: usize = 0;
    while i < rendered.len()
        invariant
            i <= rendered.len(),
            heights@ =~= rendered_heights(rendered@).subrange(0, i as int),
        decreases rendered.len() - i,
    {
        heights.push(rendered[i].1);
        i = i + 1;
    }
    assert(heights@ =~= rendered_heights(rendered@));
    let offsets = stack_offsets(heights.as_slice(), gap, base_margin);
    let ghost offs = spec_stack_offsets(rendered_heights(rendered@), gap, base_margin);
    let mut cards: Vec<CardPlacement> = Vec::new();
    let mut k: usize = 0;
    while k < rendered.len()
        invariant
            k <= rendered.len(),
            offsets@ == offs,
            offs.len() == rendered@.len(),
            cards@.len() == k,
            forall|j: int|
                0 <= j < k ==> #[trigger] cards@[j] == (CardPlacement {
                    id: rendered@[j].0,
                    margin: spec_margins(corner, base_margin, offs[j]),
                }),
        decreases rendered.len() - k,
    {
        let m = Margins::from_tuple(corner.margins(base_margin, offsets[k]));
        cards.push(CardPlacement { id: rendered[k].0, margin: m });
        k = k + 1;
    }
    SyncPlan { stale, cards }
}

proof fn lemma_stale_members(existing: Seq<(u32, u32)>, output_keys: Seq<u32>, ids: Seq<u32>)
    ensures
        forall|k: (u32, u32)|
            spec_stale(existing, output_keys, ids).contains(k) <==> (existing.contains(k)
                && !keep_key(k, output_keys, ids)),
    decreases existing.len(),
{
    if existing.len() > 0 {
        let init = existing.drop_last();
        lemma_stale_members(init, output_keys, ids);
        assert forall|k: (u32, u32)|
            spec_stale(existing, output_keys, ids).contains(k) <==> (existing.contains(k)
                && !keep_key(k, output_keys, ids)) by {
            let rest = spec_stale(init, output_keys, ids);
            if existing.contains(k) {
                let j = choose|j: int| 0 <= j < existing.len() && existing[j] == k;
                if j < existing.len() - 1 {
                    assert(init[j] == k);
                }
            }
            if init.contains(k) {
                let j = choose|j: int| 0 <= j < init.len() && init[j] == k;
                assert(existing[j] == k);
            }
            if !keep_key(existing.last(), output_keys, ids) {
                assert(rest.push(existing.last())[rest.len() as int] == existing.last());
                if rest.push(existing.last()).contains(k) {
                    let j = choose|j: int| 0 <= j < rest.len() + 1 && rest.push(existing.last())[j] == k;
                    if j < rest.len() {
                        assert(rest[j] == k);
                    }
                }
                if rest.contains(k) {
                    let j = choose|j: int| 0 <= j < rest.len() && rest[j] == k;
                    assert(rest.push(existing.last())[j] == k);
                }
            }
        }
    }
}

/// A live surface is dropped exactly when its output is no longer eligible
/// or its notification is no longer visible; no other key is ever dropped.
pub proof fn law_stale_exactly_unwanted(
    existing: Seq<(u32, u32)>,
    output_keys: Seq<u32>,
    ids: Seq<u32>,
    key: (u32, u32),
)
    ensures
        spec_stale(existing, output_keys, ids).contains(key) <==> (existing.contains(key) && !(
        output_keys.contains(key.0) && ids.contains(key.1))),
{
    lemma_stale_members(existing, output_keys, ids);
}

} // verus!
