//! Cumulative stacking offsets of cards along the anchored edge.

use vstd::prelude::*;

verus! {

/// `a + b`, or `u32::MAX` when that does not fit.
pub open spec fn sat_add(a: u32, b: u32) -> u32 {
    if a + b <= u32::MAX {
        (a + b) as u32
    } else {
        u32::MAX
    }
}

/// Distance from the anchored edge to the near edge of card `i`: `base`
/// for the first card, then each earlier card's height plus one `gap`,
/// saturating at `u32::MAX`.
pub open spec fn offset_at(heights: Seq<u32>, gap: u32, base: u32, i: int) -> u32
    decreases i,
{
    if i <= 0 {
        base
    } else {
        sat_add(sat_add(offset_at(heights, gap, base, i - 1), heights[i - 1]), gap)
    }
}

/// The offsets of all cards, in stacking order.
pub open spec fn spec_stack_offsets(heights: Seq<u32>, gap: u32, base: u32) -> Seq<u32> {
    Seq::new(heights.len(), |i: int| offset_at(heights, gap, base, i))
}

/// Cumulative margin-from-edge offset for each card, in stacking order.
///
/// `heights[i]` is the pixel height of the i-th card (in provider order, which
/// is treated as the visual stacking order). The returned offset is the
/// distance from the anchored edge to that card's near edge: the first card
/// sits `base_margin` px from the corner, and each following card is pushed
/// out by the sum of the previous cards' heights plus one `gap` each.
pub fn stack_offsets(heights: &[u32], gap: u32, base_margin: u32) -> (r: Vec<u32>)
    ensures
        r@ == spec_stack_offsets(heights@, gap, base_margin),
{
    let mut offsets: Vec<u32> = Vec::new();
    let mut acc = base_margin;
    let mut i: usize = 0;
    while i < heights.len()
        invariant
            i <= heights@.len(),
            acc == offset_at(heights@, gap, base_margin, i as int),
            offsets@ =~= spec_stack_offsets(heights@, gap, base_margin).subrange(0, i as int),
        decreases heights@.len() - i,
    {
        offsets.push(acc);
        let h = heights[i];
        let a1 = if acc <= u32::MAX - h {
            acc + h
        } else {
            u32::MAX
        };
        acc = if a1 <= u32::MAX - gap {
            a1 + gap
        } else {
            u32::MAX
        };
        i = i + 1;
    }
    offsets
}

/// Cards never move back towards the anchored edge: offsets grow with the
/// stacking order.
pub proof fn law_offsets_monotone(heights: Seq<u32>, gap: u32, base: u32, i: int, j: int)
    requires
        0 <= i <= j,
    ensures
        offset_at(heights, gap, base, i) <= offset_at(heights, gap, base, j),
    decreases j - i,
{
    if i < j {
        law_offsets_monotone(heights, gap, base, i, j - 1);
    }
}

/// Sum of the first `n` heights.
pub open spec fn height_sum(heights: Seq<u32>, n: int) -> int
    decreases n,
{
    if n <= 0 {
        0
    } else {
        height_sum(heights, n - 1) + heights[n - 1]
    }
}

/// While nothing saturates, card `i` sits at `base` plus the earlier heights
/// plus one gap per earlier card.
pub proof fn law_offsets_exact(heights: Seq<u32>, gap: u32, base: u32, i: int)
    requires
        0 <= i <= heights.len(),
        base + height_sum(heights, i) + i * gap <= u32::MAX,
    ensures
        offset_at(heights, gap, base, i) == base + height_sum(heights, i) + i * gap,
    decreases i,
{
    if i > 0 {
        assert(height_sum(heights, i - 1) <= height_sum(heights, i));
        assert((i - 1) * gap <= i * gap) by (nonlinear_arith)
            requires
                i >= 1,
                gap >= 0,
        ;
        law_offsets_exact(heights, gap, base, i - 1);
        assert(i * gap == (i - 1) * gap + gap) by (nonlinear_arith);
        let prev = offset_at(heights, gap, base, i - 1);
        assert(prev + heights[i - 1] <= u32::MAX);
        assert(sat_add(prev, heights[i - 1]) == prev + heights[i - 1]);
    } else {
        assert(i * gap == 0) by (nonlinear_arith)
            requires
                i == 0,
        ;
    }
}

} // verus!
