//! Compose per-card frames into a single stack buffer for one `wl_surface`
//! per output, instead of one `wl_surface` per notification.

use vstd::prelude::*;

use crate::render::Frame;

use super::stack::{height_sum, law_offsets_exact, offset_at, stack_offsets};

verus! {

/// One card's rendered frame plus its notification id, in the order they
/// should be painted top-to-bottom within the composed stack buffer.
#[derive(Debug, Clone, PartialEq, Eq)]
pub struct StackedFrame {
    pub id: u32,
    pub frame: Frame,
}

/// A card's extent within the composed stack buffer, in surface-local
/// pixels — used for pointer/touch hit-testing against the single surface.
#[derive(Debug, Clone, Copy, PartialEq, Eq, Structural)]
pub struct CardRow {
    pub id: u32,
    pub x_start: u32,
    pub x_end: u32,
    pub y_start: u32,
    pub y_end: u32,
}

/// The card heights, in order.
pub open spec fn heights_of(frames: Seq<StackedFrame>) -> Seq<u32> {
    Seq::new(frames.len(), |i: int| frames[i].frame.height)
}

/// The widest of the first `n` cards (0 for none).
pub open spec fn max_width(frames: Seq<StackedFrame>, n: int) -> u32
    decreases n,
{
    if n <= 0 {
        0
    } else {
        let m = max_width(frames, n - 1);
        let w = frames[n - 1].frame.width;
        if m >= w {
            m
        } else {
            w
        }
    }
}

/// Width of the composed buffer: the widest card, at least 1.
pub open spec fn stack_width(frames: Seq<StackedFrame>) -> u32 {
    let m = max_width(frames, frames.len() as int);
    if m >= 1 {
        m
    } else {
        1
    }
}

/// Top edge of card `i` in the composed buffer.
pub open spec fn card_y(frames: Seq<StackedFrame>, gap: u32, i: int) -> u32 {
    offset_at(heights_of(frames), gap, 0, i)
}

/// Left edge of card `i`: flush left, or flush right when `right_align`.
pub open spec fn card_x(frames: Seq<StackedFrame>, right_align: bool, i: int) -> u32 {
    if right_align {
        (stack_width(frames) - frames[i].frame.width) as u32
    } else {
        0
    }
}

/// Height of the composed buffer: down to the bottom of the last card, at least 1.
pub open spec fn stack_height(frames: Seq<StackedFrame>, gap: u32) -> u32 {
    let n = frames.len() as int;
    if n == 0 {
        1
    } else {
        let h = card_y(frames, gap, n - 1) + frames[n - 1].frame.height;
        if h >= 1 {
            h as u32
        } else {
            1
        }
    }
}

/// Byte index of column byte `c` of row `y` in a buffer with `stride` bytes per row.
pub open spec fn pos(y: int, c: int, stride: int) -> int {
    y * stride + c
}

/// Whether byte `c` of row `y` of the composed buffer lies on card `i`.
pub open spec fn covered(
    frames: Seq<StackedFrame>,
    gap: u32,
    right_align: bool,
    i: int,
    y: int,
    c: int,
) -> bool {
    let y0 = card_y(frames, gap, i) as int;
    let x0 = card_x(frames, right_align, i) as int;
    &&& y0 <= y < y0 + frames[i].frame.height
    &&& 4 * x0 <= c < 4 * x0 + 4 * frames[i].frame.width
}

/// The source byte that card `i` puts at byte `c` of row `y`.
pub open spec fn src_byte(
    frames: Seq<StackedFrame>,
    gap: u32,
    right_align: bool,
    i: int,
    y: int,
    c: int,
) -> u8 {
    let f = frames[i].frame;
    let y0 = card_y(frames, gap, i) as int;
    let x0 = card_x(frames, right_align, i) as int;
    f.data@[(y - y0) * (f.stride as usize) + (c - 4 * x0)]
}

/// Each frame's rows can be read (as the copy reads them), the stack fits in
/// `u32` pixels without saturating, rows fit an `i32` stride, and the
/// composed buffer fits in memory.
pub open spec fn compose_fits(frames: Seq<StackedFrame>, gap: u32) -> bool {
    let n = frames.len() as int;
    &&& forall|i: int, r: int|
        #![trigger frames[i], r * (frames[i].frame.stride as usize)]
        0 <= i < n && 0 <= r < frames[i].frame.height ==> r * (frames[i].frame.stride as usize) + 4
            * frames[i].frame.width <= frames[i].frame.data@.len()
    &&& forall|i: int| 0 <= i < n ==> 4 * #[trigger] frames[i].frame.width <= i32::MAX
    &&& n > 0 ==> height_sum(heights_of(frames), n) + (n - 1) * gap <= u32::MAX
    &&& 4 * stack_width(frames) * stack_height(frames, gap) <= isize::MAX
}

/// The row record of card `i`.
pub open spec fn spec_card_row(
    frames: Seq<StackedFrame>,
    gap: u32,
    right_align: bool,
    i: int,
) -> CardRow {
    let x = card_x(frames, right_align, i);
    let y = card_y(frames, gap, i);
    CardRow {
        id: frames[i].id,
        x_start: x,
        x_end: (x + frames[i].frame.width) as u32,
        y_start: y,
        y_end: (y + frames[i].frame.height) as u32,
    }
}

proof fn lemma_pos_inj(y1: int, c1: int, y2: int, c2: int, s: int)
    requires
        0 <= c1 < s,
        0 <= c2 < s,
        pos(y1, c1, s) == pos(y2, c2, s),
    ensures
        y1 == y2,
        c1 == c2,
{
    if y1 < y2 {
        assert(y1 * s + s <= y2 * s) by (nonlinear_arith)
            requires
                y1 < y2,
                s > 0,
        ;
    } else if y2 < y1 {
        assert(y2 * s + s <= y1 * s) by (nonlinear_arith)
            requires
                y2 < y1,
                s > 0,
        ;
    }
}

proof fn lemma_pos_bound(y: int, c: int, s: int, h: int)
    requires
        0 <= y < h,
        0 <= c < s,
    ensures
        0 <= pos(y, c, s) < s * h,
{
    assert(y * s + c < s * h) by (nonlinear_arith)
        requires
            0 <= y < h,
            0 <= c < s,
    ;
    assert(0 <= y * s) by (nonlinear_arith)
        requires
            0 <= y,
            0 <= s,
    ;
}

proof fn lemma_max_width(frames: Seq<StackedFrame>, n: int, i: int)
    requires
        0 <= i < n <= frames.len(),
    ensures
        frames[i].frame.width <= max_width(frames, n),
    decreases n,
{
    if i < n - 1 {
        lemma_max_width(frames, n - 1, i);
    }
}

proof fn lemma_max_width_attained(frames: Seq<StackedFrame>, n: int)
    requires
        0 < n <= frames.len(),
    ensures
        exists|i: int| 0 <= i < n && frames[i].frame.width == max_width(frames, n),
    decreases n,
{
    if n == 1 {
        assert(max_width(frames, 0) == 0);
    }
    if max_width(frames, n) == frames[n - 1].frame.width {
        assert(frames[n - 1].frame.width == max_width(frames, n));
    } else {
        lemma_max_width_attained(frames, n - 1);
        let k = choose|k: int| 0 <= k < n - 1 && frames[k].frame.width == max_width(frames, n - 1);
        assert(frames[k].frame.width == max_width(frames, n));
    }
}

/// Without saturation, each card starts one gap below the previous one.
proof fn lemma_card_y_step(frames: Seq<StackedFrame>, gap: u32, i: int)
    requires
        compose_fits(frames, gap),
        0 <= i,
        i + 1 < frames.len(),
    ensures
        card_y(frames, gap, i + 1) == card_y(frames, gap, i) + frames[i].frame.height + gap,
{
    let hs = heights_of(frames);
    let n = frames.len() as int;
    lemma_height_sum_mono(hs, i + 1, n);
    assert((i + 1) * gap <= (n - 1) * gap) by (nonlinear_arith)
        requires
            i + 1 <= n - 1,
            gap >= 0,
    ;
    law_offsets_exact(hs, gap, 0, i + 1);
    lemma_height_sum_mono(hs, i, n);
    assert(i * gap <= (n - 1) * gap) by (nonlinear_arith)
        requires
            i <= n - 1,
            gap >= 0,
    ;
    law_offsets_exact(hs, gap, 0, i);
    assert((i + 1) * gap == i * gap + gap) by (nonlinear_arith);
    assert(hs[i] == frames[i].frame.height);
}

/// The bottom of card `i` stays within `u32` and within the stack height.
proof fn lemma_card_bottom(frames: Seq<StackedFrame>, gap: u32, i: int)
    requires
        compose_fits(frames, gap),
        0 <= i < frames.len(),
    ensures
        card_y(frames, gap, i) + frames[i].frame.height <= stack_height(frames, gap),
    decreases frames.len() - i,
{
    if i + 1 < frames.len() {
        lemma_card_y_step(frames, gap, i);
        lemma_card_bottom(frames, gap, i + 1);
    } else {
        let hs = heights_of(frames);
        lemma_height_sum_mono(hs, i, i + 1);
        law_offsets_exact(hs, gap, 0, i);
        assert(hs[i] == frames[i].frame.height);
    }
}

proof fn lemma_row_start_bound(yr: int, x4: int, s: int, hh: int)
    requires
        0 <= yr < hh,
        0 <= x4 <= s,
    ensures
        yr * s + x4 <= s * hh,
{
    assert(yr * s + s <= s * hh) by (nonlinear_arith)
        requires
            0 <= yr < hh,
            0 <= s,
    ;
}

/// Cards are stacked in order without overlapping.
proof fn lemma_card_order(frames: Seq<StackedFrame>, gap: u32, j: int, i: int)
    requires
        compose_fits(frames, gap),
        0 <= j < i < frames.len(),
    ensures
        card_y(frames, gap, j) + frames[j].frame.height <= card_y(frames, gap, i),
    decreases i - j,
{
    lemma_card_y_step(frames, gap, i - 1);
    if j < i - 1 {
        lemma_card_order(frames, gap, j, i - 1);
    }
}

proof fn lemma_height_sum_mono(hs: Seq<u32>, a: int, b: int)
    requires
        0 <= a <= b,
    ensures
        height_sum(hs, a) <= height_sum(hs, b),
    decreases b - a,
{
    if a < b {
        lemma_height_sum_mono(hs, a, b - 1);
    }
}

/// Compose `frames` (already in top-to-bottom paint order) into one
/// transparent BGRA buffer, stacked with `gap` pixels between cards.
///
/// Cards narrower than the composed width are left-aligned (`right_align =
/// false`, for left-anchored stacks) or right-aligned (`right_align = true`,
/// for right-anchored stacks) — matching mako's per-corner alignment.
///
/// Returns the composed frame and each card's extent for hit-testing.
pub fn compose_stack(frames: &[StackedFrame], gap: u32, right_align: bool) -> (r: (
    Frame,
    Vec<CardRow>,
))
    requires
        compose_fits(frames@, gap),
    ensures
        frames@.len() == 0 ==> r.0.width == 1 && r.0.height == 1 && r.0.stride == 4
            && r.0.data@ == seq![0u8, 0u8, 0u8, 0u8] && r.1@.len() == 0,
        frames@.len() > 0 ==> {
            let w = stack_width(frames@);
            let h = stack_height(frames@, gap);
            let s = 4 * w;
            &&& r.0.width == w
            &&& r.0.height == h
            &&& r.0.stride == s
            &&& r.0.data@.len() == s * h
            &&& r.1@.len() == frames@.len()
            &&& forall|i: int|
                0 <= i < frames@.len() ==> #[trigger] r.1@[i] == spec_card_row(
                    frames@,
                    gap,
                    right_align,
                    i,
                )
            // every byte on a card is that card's pixel
            &&& forall|i: int, y: int, c: int|
                #![trigger covered(frames@, gap, right_align, i, y, c)]
                0 <= i < frames@.len() && covered(frames@, gap, right_align, i, y, c)
                    ==> r.0.data@[pos(y, c, s)] == src_byte(frames@, gap, right_align, i, y, c)
            // every byte off the cards (gaps, beside narrow cards) is transparent
            &&& forall|y: int, c: int|
                #![trigger r.0.data@[pos(y, c, s)]]
                0 <= y < h && 0 <= c < s && (forall|i: int|
                    0 <= i < frames@.len() ==> !covered(frames@, gap, right_align, i, y, c))
                    ==> r.0.data@[pos(y, c, s)] == 0
        },
{
    if frames.len() == 0 {
        return (Frame { width: 1, height: 1, stride: 4, data: vec![0u8, 0u8, 0u8, 0u8] }, Vec::new());
    }
    let ghost fs = frames@;
    let n = frames.len();
    // widest card
    let mut width: u32 = 0;
    let mut k: usize = 0;
    while k < n
        invariant
            n == fs.len(),
            fs == frames@,
            k <= n,
            width == max_width(fs, k as int),
        decreases n - k,
    {
        if frames[k].frame.width > width {
            width = frames[k].frame.width;
        }
        k = k + 1;
    }
    if width < 1 {
        width = 1;
    }
    proof {
        lemma_max_width_attained(fs, n as int);
    }
    assert(width == stack_width(fs));
    let mut heights: Vec<u32> = Vec::new();
    let mut k: usize = 0;
    while k < n
        invariant
            n == fs.len(),
            fs == frames@,
            k <= n,
            heights@ =~= heights_of(fs).subrange(0, k as int),
        decreases n - k,
    {
        heights.push(frames[k].frame.height);
        k = k + 1;
    }
    assert(heights@ =~= heights_of(fs));
    let offsets = stack_offsets(heights.as_slice(), gap, 0);
    proof {
        lemma_card_bottom(fs, gap, n - 1);
    }
    let last_bottom = offsets[n - 1] + heights[n - 1];
    let height: u32 = if last_bottom >= 1 {
        last_bottom
    } else {
        1
    };
    assert(height == stack_height(fs, gap));
    let stride_u: u32 = width * 4;
    let stride: i32 = stride_u as i32;
    let ghost s: int = 4 * width;
    let ghost hh: int = height as int;
    assert(s * hh <= isize::MAX);
    let total: usize = (stride_u as usize) * (height as usize);
    let mut data: Vec<u8> = vec![0u8; total];
    let mut rows: Vec<CardRow> = Vec::new();
    assert forall|y: int, c: int|
        #![trigger data@[pos(y, c, s)]]
        0 <= y < hh && 0 <= c < s implies data@[pos(y, c, s)] == 0 by {
        lemma_pos_bound(y, c, s, hh);
    }
    let mut i: usize = 0;
    while i < n
        invariant
            n == fs.len(),
            fs == frames@,
            compose_fits(fs, gap),
            i <= n,
            width == stack_width(fs),
            height == stack_height(fs, gap),
            s == 4 * width,
            hh == height,
            stride_u == s,
            total == s * hh,
            offsets@ =~= super::stack::spec_stack_offsets(heights_of(fs), gap, 0),
            data@.len() == total,
            rows@.len() == i,
            forall|j: int| 0 <= j < i ==> #[trigger] rows@[j] == spec_card_row(fs, gap, right_align, j),
            forall|j: int, y: int, c: int|
                #![trigger covered(fs, gap, right_align, j, y, c)]
                0 <= j < i && covered(fs, gap, right_align, j, y, c) ==> data@[pos(y, c, s)]
                    == src_byte(fs, gap, right_align, j, y, c),
            forall|y: int, c: int|
                #![trigger data@[pos(y, c, s)]]
                0 <= y < hh && 0 <= c < s && (forall|j: int|
                    0 <= j < i ==> !covered(fs, gap, right_align, j, y, c)) ==> data@[pos(y, c, s)]
                    == 0,
        decreases n - i,
    {
        let card_w = frames[i].frame.width;
        let card_h = frames[i].frame.height;
        let y = offsets[i];
        proof {
            lemma_max_width(fs, n as int, i as int);
            lemma_card_bottom(fs, gap, i as int);
        }
        let x: u32 = if right_align {
            width - card_w
        } else {
            0
        };
        assert(x == card_x(fs, right_align, i as int));
        assert(y == card_y(fs, gap, i as int));
        let src_stride: usize = frames[i].frame.stride as usize;
        let src_len: usize = frames[i].frame.data.len();
        let row_bytes: usize = (card_w as usize) * 4;
        let mut row: usize = 0;
        while row < card_h as usize
            invariant
                n == fs.len(),
                fs == frames@,
                compose_fits(fs, gap),
                i < n,
                width == stack_width(fs),
                s == 4 * width,
                hh == height,
                stride_u == s,
                data@.len() == total,
                total == s * hh,
                card_w == fs[i as int].frame.width,
                card_h == fs[i as int].frame.height,
                src_stride == fs[i as int].frame.stride as usize,
                src_len == fs[i as int].frame.data@.len(),
                row_bytes == 4 * card_w,
                x == card_x(fs, right_align, i as int),
                y == card_y(fs, gap, i as int),
                x + card_w <= width,
                y + card_h <= height,
                row <= card_h,
                forall|j: int, yy: int, c: int|
                    #![trigger covered(fs, gap, right_align, j, yy, c)]
                    0 <= j < i && covered(fs, gap, right_align, j, yy, c) ==> data@[pos(yy, c, s)]
                        == src_byte(fs, gap, right_align, j, yy, c),
                forall|yy: int, c: int|
                    #![trigger covered(fs, gap, right_align, i as int, yy, c)]
                    covered(fs, gap, right_align, i as int, yy, c) && yy < y + row
                        ==> data@[pos(yy, c, s)] == src_byte(fs, gap, right_align, i as int, yy, c),
                forall|yy: int, c: int|
                    #![trigger data@[pos(yy, c, s)]]
                    0 <= yy < hh && 0 <= c < s && (forall|j: int|
                        0 <= j < i ==> !covered(fs, gap, right_align, j, yy, c)) && !(covered(
                        fs,
                        gap,
                        right_align,
                        i as int,
                        yy,
                        c,
                    ) && yy < y + row) ==> data@[pos(yy, c, s)] == 0,
            decreases card_h - row,
        {
            proof {
                assert(row * (fs[i as int].frame.stride as usize) + 4 * fs[i as int].frame.width
                    <= fs[i as int].frame.data@.len());
                lemma_row_start_bound((y + row) as int, 4 * x, s, hh);
                lemma_row_start_bound((y + row) as int, 0, s, hh);
            }
            let dst_row: usize = (y as usize + row) * (stride_u as usize) + (x as usize) * 4;
            let src_row: usize = row * src_stride;
            let mut b: usize = 0;
            while b < row_bytes
                invariant
                    n == fs.len(),
                    fs == frames@,
                    compose_fits(fs, gap),
                    i < n,
                    width == stack_width(fs),
                    s == 4 * width,
                    hh == height,
                    data@.len() == total,
                    total == s * hh,
                    card_w == fs[i as int].frame.width,
                    card_h == fs[i as int].frame.height,
                    src_stride == fs[i as int].frame.stride as usize,
                    row_bytes == 4 * card_w,
                    x == card_x(fs, right_align, i as int),
                    y == card_y(fs, gap, i as int),
                    x + card_w <= width,
                    y + card_h <= height,
                    row < card_h,
                    dst_row == pos(y + row, 4 * x, s),
                    src_row == row * src_stride,
                    src_row + row_bytes <= fs[i as int].frame.data@.len(),
                    src_len == fs[i as int].frame.data@.len(),
                    b <= row_bytes,
                    forall|j: int, yy: int, c: int|
                        #![trigger covered(fs, gap, right_align, j, yy, c)]
                        0 <= j < i && covered(fs, gap, right_align, j, yy, c) ==> data@[pos(
                            yy,
                            c,
                            s,
                        )] == src_byte(fs, gap, right_align, j, yy, c),
                    forall|yy: int, c: int|
                        #![trigger covered(fs, gap, right_align, i as int, yy, c)]
                        covered(fs, gap, right_align, i as int, yy, c) && (yy < y + row || (yy == y
                            + row && c < 4 * x + b)) ==> data@[pos(yy, c, s)] == src_byte(
                            fs,
                            gap,
                            right_align,
                            i as int,
                            yy,
                            c,
                        ),
                    forall|yy: int, c: int|
                        #![trigger data@[pos(yy, c, s)]]
                        0 <= yy < hh && 0 <= c < s && (forall|j: int|
                            0 <= j < i ==> !covered(fs, gap, right_align, j, yy, c)) && !(covered(
                            fs,
                            gap,
                            right_align,
                            i as int,
                            yy,
                            c,
                        ) && (yy < y + row || (yy == y + row && c < 4 * x + b)))
                            ==> data@[pos(yy, c, s)] == 0,
                decreases row_bytes - b,
            {
                let ghost q = pos(y + row, 4 * x + b, s);
                proof {
                    lemma_pos_bound((y + row) as int, 4 * x + b, s, hh);
                }
                let v = frames[i].frame.data[src_row + b];
                let ghost old_data = data@;
                data.set(dst_row + b, v);
                proof {
                    assert(dst_row + b == q);
                    assert(v == src_byte(fs, gap, right_align, i as int, y + row, 4 * x + b));
                    assert forall|j: int, yy: int, c: int|
                        #![trigger covered(fs, gap, right_align, j, yy, c)]
                        0 <= j < i && covered(fs, gap, right_align, j, yy, c) implies data@[pos(
                            yy,
                            c,
                            s,
                        )] == src_byte(fs, gap, right_align, j, yy, c) by {
                        lemma_card_order(fs, gap, j, i as int);
                        lemma_max_width(fs, n as int, j);
                        lemma_card_bottom(fs, gap, j);
                        assert(fs[j].frame.width <= width);
                        assert(c < s);
                        if pos(yy, c, s) == q {
                            lemma_pos_inj(yy, c, y + row, 4 * x + b, s);
                        } else {
                            lemma_pos_bound(yy, c, s, hh);
                        }
                    }
                    assert forall|yy: int, c: int|
                        #![trigger covered(fs, gap, right_align, i as int, yy, c)]
                        covered(fs, gap, right_align, i as int, yy, c) && (yy < y + row || (yy == y
                            + row && c < 4 * x + b + 1)) implies data@[pos(yy, c, s)] == src_byte(
                        fs,
                        gap,
                        right_align,
                        i as int,
                        yy,
                        c,
                    ) by {
                        assert(c < s);
                        if pos(yy, c, s) == q {
                            lemma_pos_inj(yy, c, y + row, 4 * x + b, s);
                        } else {
                            lemma_pos_bound(yy, c, s, hh);
                        }
                    }
                    assert forall|yy: int, c: int|
                        #![trigger data@[pos(yy, c, s)]]
                        0 <= yy < hh && 0 <= c < s && (forall|j: int|
                            0 <= j < i ==> !covered(fs, gap, right_align, j, yy, c)) && !(covered(
                            fs,
                            gap,
                            right_align,
                            i as int,
                            yy,
                            c,
                        ) && (yy < y + row || (yy == y + row && c < 4 * x + b + 1))) implies data@[pos(
                        yy,
                        c,
                        s,
                    )] == 0 by {
                        if pos(yy, c, s) == q {
                            lemma_pos_inj(yy, c, y + row, 4 * x + b, s);
                            assert(covered(fs, gap, right_align, i as int, yy, c));
                            assert(false);
                        } else {
                            lemma_pos_bound(yy, c, s, hh);
                            assert(old_data[pos(yy, c, s)] == 0);
                        }
                    }
                }
                b = b + 1;
            }
            row = row + 1;
        }
        rows.push(
            CardRow { id: frames[i].id, x_start: x, x_end: x + card_w, y_start: y, y_end: y + card_h },
        );
        i = i + 1;
    }
    (Frame { width, height, stride, data }, rows)
}

/// In a composed stack, each card's row starts exactly `gap` pixels below
/// the end of the row before it.
pub proof fn law_rows_separated_by_gap(
    frames: Seq<StackedFrame>,
    gap: u32,
    right_align: bool,
    i: int,
)
    requires
        compose_fits(frames, gap),
        0 <= i,
        i + 1 < frames.len(),
    ensures
        spec_card_row(frames, gap, right_align, i + 1).y_start == spec_card_row(
            frames,
            gap,
            right_align,
            i,
        ).y_end + gap,
{
    lemma_card_y_step(frames, gap, i);
    lemma_card_bottom(frames, gap, i);
}

/// Rows of a composed stack never overlap: an earlier card ends at or above
/// the start of every later one.
pub proof fn law_rows_in_order(
    frames: Seq<StackedFrame>,
    gap: u32,
    right_align: bool,
    j: int,
    i: int,
)
    requires
        compose_fits(frames, gap),
        0 <= j < i < frames.len(),
    ensures
        spec_card_row(frames, gap, right_align, j).y_end <= spec_card_row(
            frames,
            gap,
            right_align,
            i,
        ).y_start,
{
    lemma_card_order(frames, gap, j, i);
    lemma_card_bottom(frames, gap, j);
}

} // verus!
