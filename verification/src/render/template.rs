//! Pango markup templates: escaping notification text and filling the
//! `{summary}`, `{body}`, `{app_id}` and `{id}` placeholders.

use vstd::prelude::*;

use crate::model::NotificationView;
use crate::text::{chars_of, concat, decimal, decimal_seq, string_of};

verus! {

/// The markup for one character of plain text.
pub open spec fn escape_char(c: char) -> Seq<char> {
    if c == '&' {
        "&amp;"@
    } else if c == '<' {
        "&lt;"@
    } else if c == '>' {
        "&gt;"@
    } else if c == '\'' {
        "&apos;"@
    } else if c == '"' {
        "&quot;"@
    } else {
        seq![c]
    }
}

/// Plain text escaped for Pango markup, character by character.
pub open spec fn spec_escape(s: Seq<char>) -> Seq<char>
    decreases s.len(),
{
    if s.len() == 0 {
        Seq::empty()
    } else {
        spec_escape(s.drop_last()) + escape_char(s.last())
    }
}

/// Every non-overlapping occurrence of the non-empty `pat`, scanning from the
/// left, replaced by `rep` (what `str::replace` does for a non-empty pattern).
pub open spec fn spec_replace(s: Seq<char>, pat: Seq<char>, rep: Seq<char>) -> Seq<char>
    decreases s.len(),
{
    if pat.len() == 0 || s.len() < pat.len() {
        s
    } else if s.subrange(0, pat.len() as int) == pat {
        rep + spec_replace(s.subrange(pat.len() as int, s.len() as int), pat, rep)
    } else {
        seq![s[0]] + spec_replace(s.drop_first(), pat, rep)
    }
}

/// The text `body` contributes: raw markup when the sender marked it as
/// markup and it is well-formed, escaped plain text otherwise.
pub open spec fn spec_body_text(body: Seq<char>, body_markup: bool, markup_valid: bool) -> Seq<
    char,
> {
    if body_markup && markup_valid {
        body
    } else {
        spec_escape(body)
    }
}

/// A template with its placeholders filled, in the order `{summary}`,
/// `{body}`, `{app_id}`, `{id}`.
pub open spec fn spec_apply_template(
    template: Seq<char>,
    n: NotificationView,
    body_markup_valid: bool,
) -> Seq<char> {
    let t1 = spec_replace(template, "{summary}"@, spec_escape(n.summary@));
    let t2 = spec_replace(t1, "{body}"@, spec_body_text(n.body@, n.body_markup, body_markup_valid));
    let t3 = spec_replace(t2, "{app_id}"@, spec_escape(n.app_id@));
    spec_replace(t3, "{id}"@, decimal_seq(n.id as nat))
}

proof fn lemma_escape_push(s: Seq<char>, c: char)
    ensures
        spec_escape(s.push(c)) == spec_escape(s) + escape_char(c),
{
    assert(s.push(c).drop_last() =~= s);
}

/// Escape plain text for safe insertion into Pango markup templates.
pub fn pango_escape(s: &str) -> (r: String)
    ensures
        r@ == spec_escape(s@),
{
    let v = chars_of(s);
    let amp = chars_of("&amp;");
    let lt = chars_of("&lt;");
    let gt = chars_of("&gt;");
    let apos = chars_of("&apos;");
    let quot = chars_of("&quot;");
    let mut out: Vec<char> = Vec::new();
    let mut i: usize = 0;
    while i < v.len()
        invariant
            i <= v.len(),
            amp@ == "&amp;"@,
            lt@ == "&lt;"@,
            gt@ == "&gt;"@,
            apos@ == "&apos;"@,
            quot@ == "&quot;"@,
            out@ == spec_escape(v@.subrange(0, i as int)),
        decreases v.len() - i,
    {
        let c = v[i];
        let ghost before = out@;
        if c == '&' {
            push_all(&mut out, &amp);
        } else if c == '<' {
            push_all(&mut out, &lt);
        } else if c == '>' {
            push_all(&mut out, &gt);
        } else if c == '\'' {
            push_all(&mut out, &apos);
        } else if c == '"' {
            push_all(&mut out, &quot);
        } else {
            out.push(c);
            assert(out@ =~= before + seq![c]);
        }
        proof {
            lemma_escape_push(v@.subrange(0, i as int), c);
            assert(v@.subrange(0, i as int).push(c) =~= v@.subrange(0, i + 1));
        }
        i = i + 1;
    }
    assert(v@.subrange(0, v@.len() as int) =~= v@);
    string_of(&out)
}

/// Appends all of `w` to `v`.
fn push_all(v: &mut Vec<char>, w: &Vec<char>)
    ensures
        final(v)@ == old(v)@ + w@,
{
    let mut i: usize = 0;
    let ghost start = v@;
    while i < w.len()
        invariant
            i <= w.len(),
            v@ == start + w@.subrange(0, i as int),
        decreases w.len() - i,
    {
        v.push(w[i]);
        i = i + 1;
        assert(v@ =~= start + w@.subrange(0, i as int));
    }
    assert(w@.subrange(0, w@.len() as int) =~= w@);
}

/// Whether `pat` occurs in `s` at index `i`.
fn matches_at(s: &Vec<char>, i: usize, pat: &Vec<char>) -> (r: bool)
    requires
        i <= s.len(),
    ensures
        r == (i + pat.len() <= s.len() && s@.subrange(i as int, i + pat.len()) == pat@),
{
    if pat.len() > s.len() - i {
        return false;
    }
    let mut k: usize = 0;
    while k < pat.len()
        invariant
            i + pat.len() <= s.len(),
            k <= pat.len(),
            forall|m: int| 0 <= m < k ==> s@[i + m] == pat@[m],
        decreases pat.len() - k,
    {
        if s[i + k] != pat[k] {
            assert(s@.subrange(i as int, i + pat.len())[k as int] != pat@[k as int]);
            return false;
        }
        k = k + 1;
    }
    assert(s@.subrange(i as int, i + pat.len()) =~= pat@);
    true
}

/// Replace every non-overlapping occurrence of the non-empty `pat` in `s` by `rep`.
pub fn replace_all(s: &Vec<char>, pat: &Vec<char>, rep: &Vec<char>) -> (r: Vec<char>)
    requires
        pat.len() > 0,
    ensures
        r@ == spec_replace(s@, pat@, rep@),
{
    let mut out: Vec<char> = Vec::new();
    let mut i: usize = 0;
    assert(s@.subrange(0, s@.len() as int) =~= s@);
    assert(out@ + s@ =~= s@);
    while i < s.len()
        invariant
            pat.len() > 0,
            i <= s.len(),
            spec_replace(s@, pat@, rep@) == out@ + spec_replace(
                s@.subrange(i as int, s@.len() as int),
                pat@,
                rep@,
            ),
        decreases s.len() - i,
    {
        let ghost rest = s@.subrange(i as int, s@.len() as int);
        if matches_at(s, i, pat) {
            proof {
                assert(rest.subrange(0, pat@.len() as int) =~= s@.subrange(
                    i as int,
                    i + pat@.len(),
                ));
                assert(rest.subrange(pat@.len() as int, rest.len() as int) =~= s@.subrange(
                    i + pat@.len(),
                    s@.len() as int,
                ));
            }
            let ghost before = out@;
            push_all(&mut out, rep);
            assert(before + (rep@ + spec_replace(
                s@.subrange(i + pat@.len(), s@.len() as int),
                pat@,
                rep@,
            )) =~= out@ + spec_replace(s@.subrange(i + pat@.len(), s@.len() as int), pat@, rep@));
            i = i + pat.len();
        } else {
            proof {
                if rest.len() >= pat@.len() {
                    assert(rest.subrange(0, pat@.len() as int) =~= s@.subrange(
                        i as int,
                        i + pat@.len(),
                    ));
                }
                assert(rest.drop_first() =~= s@.subrange(i + 1, s@.len() as int));
                assert(rest[0] == s@[i as int]);
            }
            let ghost before = out@;
            out.push(s[i]);
            assert(before + (seq![s@[i as int]] + spec_replace(
                s@.subrange(i + 1, s@.len() as int),
                pat@,
                rep@,
            )) =~= out@ + spec_replace(s@.subrange(i + 1, s@.len() as int), pat@, rep@));
            i = i + 1;
        }
    }
    assert(s@.subrange(s@.len() as int, s@.len() as int) =~= Seq::<char>::empty());
    assert(out@ + Seq::<char>::empty() =~= out@);
    out
}

/// The string handed to the markup checker for `body`: the body wrapped in a
/// throwaway root element, so that only its own well-formedness is checked.
pub fn markup_probe(body: &str) -> (r: String)
    ensures
        r@ == "<span>"@ + body@ + "</span>"@,
{
    let head = concat("<span>", body);
    concat(head.as_str(), "</span>")
}

/// `body` markup, either raw (if `body_markup` is set and the text parses as
/// valid Pango markup, as `markup_valid` reports for `markup_probe(body)`)
/// or escaped plain text otherwise.
///
/// Malformed markup falls back to escaped plain text rather than failing the
/// whole card, since Pango would otherwise reject the entire layout for one
/// bad tag.
pub fn body_markup_or_escaped(body: &str, body_markup: bool, markup_valid: bool) -> (r: String)
    ensures
        r@ == spec_body_text(body@, body_markup, markup_valid),
{
    if !body_markup {
        return pango_escape(body);
    }
    if markup_valid {
        string_of(&chars_of(body))
    } else {
        pango_escape(body)
    }
}

/// Fill `template` from `notification`. `body_markup_valid` tells whether
/// `markup_probe(&notification.body)` is well-formed Pango markup; it only
/// matters when the notification marks its body as markup.
pub fn apply_template(
    template: &str,
    notification: &NotificationView,
    body_markup_valid: bool,
) -> (r: String)
    ensures
        r@ == spec_apply_template(template@, *notification, body_markup_valid),
{
    let t0 = chars_of(template);
    let summary = chars_of(pango_escape(notification.summary.as_str()).as_str());
    let body = chars_of(
        body_markup_or_escaped(
            notification.body.as_str(),
            notification.body_markup,
            body_markup_valid,
        ).as_str(),
    );
    let app = chars_of(pango_escape(notification.app_id.as_str()).as_str());
    let id = chars_of(decimal(notification.id).as_str());
    proof {
        reveal_strlit("{summary}");
        reveal_strlit("{body}");
        reveal_strlit("{app_id}");
        reveal_strlit("{id}");
    }
    let t1 = replace_all(&t0, &chars_of("{summary}"), &summary);
    let t2 = replace_all(&t1, &chars_of("{body}"), &body);
    let t3 = replace_all(&t2, &chars_of("{app_id}"), &app);
    let t4 = replace_all(&t3, &chars_of("{id}"), &id);
    string_of(&t4)
}

/// Escaped text holds no raw `<`, `>`, `'` or `"`: user text can never open
/// or close a markup tag or attribute.
pub proof fn law_escape_has_no_markup(s: Seq<char>)
    ensures
        forall|i: int|
            0 <= i < spec_escape(s).len() ==> {
                let c = #[trigger] spec_escape(s)[i];
                c != '<' && c != '>' && c != '\'' && c != '"'
            },
    decreases s.len(),
{
    if s.len() > 0 {
        law_escape_has_no_markup(s.drop_last());
        let a = spec_escape(s.drop_last());
        let e = escape_char(s.last());
        assert forall|i: int| 0 <= i < e.len() implies {
            let c = #[trigger] e[i];
            c != '<' && c != '>' && c != '\'' && c != '"'
        } by {
            reveal_strlit("&amp;");
            reveal_strlit("&lt;");
            reveal_strlit("&gt;");
            reveal_strlit("&apos;");
            reveal_strlit("&quot;");
        }
        assert forall|i: int| 0 <= i < (a + e).len() implies {
            let c = #[trigger] (a + e)[i];
            c != '<' && c != '>' && c != '\'' && c != '"'
        } by {
            if i < a.len() {
                assert((a + e)[i] == a[i]);
            } else {
                assert((a + e)[i] == e[i - a.len()]);
            }
        }
    }
}

/// A text without the pattern comes out of a replacement unchanged.
pub proof fn law_replace_absent(s: Seq<char>, pat: Seq<char>, rep: Seq<char>)
    requires
        pat.len() > 0,
        forall|i: int| 0 <= i && i + pat.len() <= s.len() ==> #[trigger] s.subrange(i, i + pat.len()) != pat,
    ensures
        spec_replace(s, pat, rep) == s,
    decreases s.len(),
{
    if s.len() >= pat.len() {
        assert(s.subrange(0, (0 + pat.len()) as int) != pat);
        let t = s.drop_first();
        assert forall|i: int| 0 <= i && i + pat.len() <= t.len() implies #[trigger] t.subrange(
            i,
            i + pat.len(),
        ) != pat by {
            assert(t.subrange(i, i + pat.len()) =~= s.subrange(i + 1, i + 1 + pat.len()));
        }
        law_replace_absent(t, pat, rep);
        assert(seq![s[0]] + t =~= s);
    }
}

/// Whether `pat` occurs anywhere in `s`.
pub open spec fn occurs(s: Seq<char>, pat: Seq<char>) -> bool {
    exists|i: int| 0 <= i && i + pat.len() <= s.len() && #[trigger] s.subrange(i, i + pat.len()) == pat
}

/// A template without placeholders renders verbatim, whatever the
/// notification says.
pub proof fn law_plain_template_verbatim(template: Seq<char>, n: NotificationView, body_markup_valid: bool)
    requires
        !occurs(template, "{summary}"@),
        !occurs(template, "{body}"@),
        !occurs(template, "{app_id}"@),
        !occurs(template, "{id}"@),
    ensures
        spec_apply_template(template, n, body_markup_valid) == template,
{
    reveal_strlit("{summary}");
    reveal_strlit("{body}");
    reveal_strlit("{app_id}");
    reveal_strlit("{id}");
    law_replace_absent(template, "{summary}"@, spec_escape(n.summary@));
    law_replace_absent(template, "{body}"@, spec_body_text(n.body@, n.body_markup, body_markup_valid));
    law_replace_absent(template, "{app_id}"@, spec_escape(n.app_id@));
    law_replace_absent(template, "{id}"@, decimal_seq(n.id as nat));
}

} // verus!
