//! Path strings: joining as `PathBuf::push` does, splitting `:`-separated
//! search lists, and probing the file system.

use vstd::prelude::*;

use crate::text::{chars_of, string_of};

verus! {

/// `p` appended to `base` as `PathBuf::push` does on Unix: an absolute `p`
/// replaces `base`; otherwise a `/` is inserted unless `base` is empty or
/// already ends with one.
pub open spec fn join(base: Seq<char>, p: Seq<char>) -> Seq<char> {
    if p.len() > 0 && p[0] == '/' {
        p
    } else if base.len() == 0 || base.last() == '/' {
        base + p
    } else {
        base + seq!['/'] + p
    }
}

/// A Unix path is absolute when it starts at the root.
pub open spec fn is_absolute(p: Seq<char>) -> bool {
    p.len() > 0 && p[0] == '/'
}

/// The characters of each string.
pub open spec fn views(v: Seq<String>) -> Seq<Seq<char>> {
    v.map_values(|s: String| s@)
}

/// The characters of each character vector.
pub open spec fn char_views(v: Seq<Vec<char>>) -> Seq<Seq<char>> {
    v.map_values(|s: Vec<char>| s@)
}

/// Left-to-right scan of `s` split at `sep`: the finished non-empty fields
/// and the field still being read.
pub open spec fn split_scan(s: Seq<char>, sep: char) -> (Seq<Seq<char>>, Seq<char>)
    decreases s.len(),
{
    if s.len() == 0 {
        (Seq::empty(), Seq::empty())
    } else {
        let (done, cur) = split_scan(s.drop_last(), sep);
        if s.last() == sep {
            (
                if cur.len() > 0 {
                    done.push(cur)
                } else {
                    done
                },
                Seq::empty(),
            )
        } else {
            (done, cur.push(s.last()))
        }
    }
}

/// The non-empty fields of `s` between occurrences of `sep`, in order.
pub open spec fn nonempty_fields(s: Seq<char>, sep: char) -> Seq<Seq<char>> {
    let (done, cur) = split_scan(s, sep);
    if cur.len() > 0 {
        done.push(cur)
    } else {
        done
    }
}

/// Join two paths.
pub fn join_path(base: &Vec<char>, p: &Vec<char>) -> (r: Vec<char>)
    ensures
        r@ == join(base@, p@),
{
    if p.len() > 0 && p[0] == '/' {
        return copy_chars(p);
    }
    let mut r = copy_chars(base);
    if !(base.len() == 0 || base[base.len() - 1] == '/') {
        r.push('/');
    }
    let ghost head = r@;
    let mut i: usize = 0;
    while i < p.len()
        invariant
            i <= p.len(),
            r@ == head + p@.subrange(0, i as int),
        decreases p.len() - i,
    {
        r.push(p[i]);
        i = i + 1;
        assert(r@ =~= head + p@.subrange(0, i as int));
    }
    assert(p@.subrange(0, p@.len() as int) =~= p@);
    proof {
        if !(base@.len() == 0 || base@.last() == '/') {
            assert(head =~= base@ + seq!['/']);
        }
    }
    r
}

/// Join a path with a string literal.
pub fn join_str(base: &Vec<char>, p: &str) -> (r: Vec<char>)
    ensures
        r@ == join(base@, p@),
{
    join_path(base, &chars_of(p))
}

/// A copy of a character vector.
pub fn copy_chars(v: &Vec<char>) -> (r: Vec<char>)
    ensures
        r@ == v@,
{
    let mut r: Vec<char> = Vec::new();
    let mut i: usize = 0;
    while i < v.len()
        invariant
            i <= v.len(),
            r@ == v@.subrange(0, i as int),
        decreases v.len() - i,
    {
        r.push(v[i]);
        i = i + 1;
        assert(r@ =~= v@.subrange(0, i as int));
    }
    assert(v@.subrange(0, v@.len() as int) =~= v@);
    r
}

/// `Vec<String>` with the same characters as a list of character vectors.
pub fn strings_of(v: &Vec<Vec<char>>) -> (r: Vec<String>)
    ensures
        views(r@) == char_views(v@),
{
    let mut r: Vec<String> = Vec::new();
    let mut i: usize = 0;
    while i < v.len()
        invariant
            i <= v.len(),
            r@.len() == i,
            views(r@) =~= char_views(v@).subrange(0, i as int),
        decreases v.len() - i,
    {
        let ghost before = r@;
        let st = string_of(&v[i]);
        r.push(st);
        assert(r@ == before.push(st));
        assert(views(r@)[i as int] == char_views(v@)[i as int]);
        assert forall|k: int| 0 <= k < i implies views(r@)[k] == views(before)[k] by {
            assert(r@[k] == before[k]);
        }

        i = i + 1;
        assert(views(r@) =~= char_views(v@).subrange(0, i as int));
    }
    assert(char_views(v@).subrange(0, v@.len() as int) =~= char_views(v@));
    r
}

/// The non-empty `sep`-separated fields of `s` (`s.split(sep)` without the
/// empty pieces).
pub fn split_nonempty(s: &Vec<char>, sep: char) -> (r: Vec<Vec<char>>)
    ensures
        char_views(r@) == nonempty_fields(s@, sep),
{
    let mut done: Vec<Vec<char>> = Vec::new();
    let mut cur: Vec<char> = Vec::new();
    let mut i: usize = 0;
    while i < s.len()
        invariant
            i <= s.len(),
            (char_views(done@), cur@) == split_scan(s@.subrange(0, i as int), sep),
        decreases s.len() - i,
    {
        let c = s[i];
        proof {
            assert(s@.subrange(0, i + 1).drop_last() =~= s@.subrange(0, i as int));
            assert(s@.subrange(0, i + 1).last() == c);
        }
        if c == sep {
            if cur.len() > 0 {
                let ghost before = char_views(done@);
                let finished = cur;
                done.push(finished);
                assert(char_views(done@) =~= before.push(finished@));
            }
            cur = Vec::new();
        } else {
            cur.push(c);
        }
        i = i + 1;
    }
    assert(s@.subrange(0, s@.len() as int) =~= s@);
    if cur.len() > 0 {
        let ghost before = char_views(done@);
        let last = cur;
        done.push(last);
        assert(char_views(done@) =~= before.push(last@));
    }
    done
}

/// Whether a file exists at `path` (`Path::is_file`, which follows symlinks).
///
/// The answer depends on the file system at the time of the call, so the
/// contract states nothing about it.
#[verifier::external_body]
pub fn path_is_file(path: &str) -> bool {
    std::path::Path::new(path).is_file()
}

/// Name for what `Path::parent` gives for a path: the path without its final
/// component, or `None` when it ends in the root or is empty.
pub uninterp spec fn spec_path_parent(p: Seq<char>) -> Option<Seq<char>>;

/// The parent of `path` (`Path::parent`), as a string.
///
/// Trusted to equal `spec_path_parent` of the argument; what that is on
/// given paths (component normalization) is left to std's documentation.
#[verifier::external_body]
pub fn path_parent(path: &str) -> (r: Option<String>)
    ensures
        match spec_path_parent(path@) {
            Some(q) => r is Some && r->0@ == q,
            None => r is None,
        },
{
    std::path::Path::new(path).parent().map(|p| p.to_string_lossy().into_owned())
}

} // verus!
