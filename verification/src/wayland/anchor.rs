//! The screen corner a notification stack is anchored to.

use vstd::prelude::*;

use crate::text::{ascii_lower, ascii_lower_chars, ascii_lower_seq, chars_eq, chars_of, is_ws, trim, trim_chars, trim_end, trim_start};

verus! {

/// Screen corner the notification stack is anchored to (`[placement].anchor`).
#[derive(Debug, Clone, Copy, PartialEq, Eq, Structural)]
pub enum Corner {
    TopLeft,
    TopRight,
    BottomLeft,
    BottomRight,
}

/// Which screen edges a layer surface is anchored to.
#[derive(Debug, Clone, Copy, PartialEq, Eq, Structural)]
pub struct AnchorEdges {
    pub top: bool,
    pub bottom: bool,
    pub left: bool,
    pub right: bool,
}

/// The corner an anchor word names: compared after trimming and ASCII
/// lowercasing; unknown words mean `top-right`.
pub open spec fn spec_parse_corner(s: Seq<char>) -> Corner {
    let k = ascii_lower_seq(trim(s));
    if k == "top-left"@ {
        Corner::TopLeft
    } else if k == "bottom-left"@ {
        Corner::BottomLeft
    } else if k == "bottom-right"@ {
        Corner::BottomRight
    } else {
        Corner::TopRight
    }
}

impl Corner {
    pub open spec fn spec_is_top(self) -> bool {
        self is TopLeft || self is TopRight
    }

    pub open spec fn spec_is_right(self) -> bool {
        self is TopRight || self is BottomRight
    }

    /// Parse a `[placement].anchor` value; unknown values fall back to
    /// `top-right` (mako's default corner).
    pub fn parse(anchor: &str) -> (r: Corner)
        ensures
            r == spec_parse_corner(anchor@),
    {
        let t = trim_chars(&chars_of(anchor));
        let k = ascii_lower_chars(&t);
        if chars_eq(&k, &chars_of("top-left")) {
            Corner::TopLeft
        } else if chars_eq(&k, &chars_of("bottom-left")) {
            Corner::BottomLeft
        } else if chars_eq(&k, &chars_of("bottom-right")) {
            Corner::BottomRight
        } else {
            Corner::TopRight
        }
    }

    /// Whether the stack grows down from the top edge.
    #[verifier::when_used_as_spec(spec_is_top)]
    pub fn is_top(self) -> (r: bool)
        ensures
            r == self.spec_is_top(),
    {
        match self {
            Corner::TopLeft | Corner::TopRight => true,
            _ => false,
        }
    }

    /// Whether the stack hugs the right edge.
    #[verifier::when_used_as_spec(spec_is_right)]
    pub fn is_right(self) -> (r: bool)
        ensures
            r == self.spec_is_right(),
    {
        match self {
            Corner::TopRight | Corner::BottomRight => true,
            _ => false,
        }
    }

    /// Layer-surface anchor edges for this corner.
    pub fn anchor_bits(self) -> (r: AnchorEdges)
        ensures
            r.top == self.spec_is_top(),
            r.bottom == !self.spec_is_top(),
            r.right == self.spec_is_right(),
            r.left == !self.spec_is_right(),
    {
        AnchorEdges {
            top: self.is_top(),
            bottom: !self.is_top(),
            left: !self.is_right(),
            right: self.is_right(),
        }
    }

    /// `(top, right, bottom, left)` margins for a card whose distance from the
    /// anchored edge (cumulative height of earlier cards, plus gaps) is
    /// `stack_offset`: the offset goes on the anchored vertical edge, the base
    /// margin on the anchored horizontal edge, and the other two are zero.
    pub fn margins(self, base_margin: u32, stack_offset: u32) -> (r: (i32, i32, i32, i32))
        ensures
            r.0 == (if self.spec_is_top() { stack_offset as i32 } else { 0 }),
            r.1 == (if self.spec_is_right() { base_margin as i32 } else { 0 }),
            r.2 == (if self.spec_is_top() { 0 } else { stack_offset as i32 }),
            r.3 == (if self.spec_is_right() { 0 } else { base_margin as i32 }),
    {
        let base = base_margin as i32;
        let offset = stack_offset as i32;
        match self {
            Corner::TopLeft => (offset, 0, 0, base),
            Corner::TopRight => (offset, base, 0, 0),
            Corner::BottomLeft => (0, 0, offset, base),
            Corner::BottomRight => (0, base, offset, 0),
        }
    }
}

proof fn lemma_ascii_lower_ws(c: char)
    ensures
        is_ws(ascii_lower(c)) == is_ws(c),
{
}

proof fn lemma_lower_trim_start(s: Seq<char>)
    ensures
        trim_start(ascii_lower_seq(s)) == ascii_lower_seq(trim_start(s)),
    decreases s.len(),
{
    if s.len() > 0 {
        lemma_ascii_lower_ws(s[0]);
        assert(ascii_lower_seq(s)[0] == ascii_lower(s[0]));
        if is_ws(s[0]) {
            assert(ascii_lower_seq(s).drop_first() =~= ascii_lower_seq(s.drop_first()));
            lemma_lower_trim_start(s.drop_first());
        }
    }
}

proof fn lemma_lower_trim_end(s: Seq<char>)
    ensures
        trim_end(ascii_lower_seq(s)) == ascii_lower_seq(trim_end(s)),
    decreases s.len(),
{
    if s.len() > 0 {
        lemma_ascii_lower_ws(s.last());
        assert(ascii_lower_seq(s).last() == ascii_lower(s.last()));
        if is_ws(s.last()) {
            assert(ascii_lower_seq(s).drop_last() =~= ascii_lower_seq(s.drop_last()));
            lemma_lower_trim_end(s.drop_last());
        }
    }
}

proof fn lemma_trim_start_idem(s: Seq<char>)
    ensures
        trim_start(trim_start(s)) == trim_start(s),
    decreases s.len(),
{
    if s.len() > 0 && is_ws(s[0]) {
        lemma_trim_start_idem(s.drop_first());
    }
}

proof fn lemma_trim_end_idem(s: Seq<char>)
    ensures
        trim_end(trim_end(s)) == trim_end(s),
    decreases s.len(),
{
    if s.len() > 0 && is_ws(s.last()) {
        lemma_trim_end_idem(s.drop_last());
    }
}

/// A trimmed sequence does not start with whitespace.
proof fn lemma_trim_start_head(s: Seq<char>)
    ensures
        trim_start(s).len() > 0 ==> !is_ws(trim_start(s)[0]),
    decreases s.len(),
{
    if s.len() > 0 && is_ws(s[0]) {
        lemma_trim_start_head(s.drop_first());
    }
}

/// Trimming the end keeps a non-whitespace first character in place.
proof fn lemma_trim_end_keeps_start(s: Seq<char>)
    requires
        s.len() > 0 ==> !is_ws(s[0]),
    ensures
        trim_start(trim_end(s)) == trim_end(s),
    decreases s.len(),
{
    if s.len() > 0 && is_ws(s.last()) {
        let t = s.drop_last();
        if t.len() > 0 {
            assert(t[0] == s[0]);
        }
        lemma_trim_end_keeps_start(t);
    }
}

proof fn lemma_trim_idem(s: Seq<char>)
    ensures
        trim(trim(s)) == trim(s),
{
    let a = trim_start(s);
    lemma_trim_start_head(s);
    lemma_trim_end_keeps_start(a);
    lemma_trim_end_idem(a);
}

/// Anchor words are read without regard to surrounding whitespace or ASCII
/// case: a word parses to the same corner as its trimmed, lowercased form.
pub proof fn law_corner_parse_normalized(s: Seq<char>)
    ensures
        spec_parse_corner(s) == spec_parse_corner(ascii_lower_seq(trim(s))),
{
    let t = trim(s);
    lemma_lower_trim_start(t);
    lemma_lower_trim_end(trim_start(t));
    lemma_trim_idem(s);
    let l = ascii_lower_seq(t);
    assert(trim(l) == ascii_lower_seq(trim(t)));
    assert(ascii_lower_seq(l) =~= l);
}

} // verus!
