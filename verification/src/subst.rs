//! Literal substring replacement on character sequences.

use vstd::prelude::*;
use vstd::string::*;

verus! {

/// `s` with every occurrence of `pat` replaced by `to`. Occurrences are found from left to
/// right and do not overlap: the search resumes behind the occurrence just replaced, and
/// the replacement itself is never searched. The empty pattern occurs nowhere.
pub open spec fn replaced(s: Seq<char>, pat: Seq<char>, to: Seq<char>) -> Seq<char>
    decreases s.len(),
{
    if pat.len() == 0 || s.len() < pat.len() {
        s
    } else if pat.is_prefix_of(s) {
        to + replaced(s.skip(pat.len() as int), pat, to)
    } else {
        s.take(1) + replaced(s.skip(1), pat, to)
    }
}

/// The characters of `s`, one by one.
fn chars_of(s: &str) -> (v: Vec<char>)
    ensures
        v@ == s@,
{
    let mut v: Vec<char> = Vec::new();
    for c in it: s.chars()
        invariant
            it.seq() == s@,
            v@ == it.seq().take(it.index() as int),
    {
        v.push(c);
    }
    v
}

/// Whether `pat` stands in `text` at position `at`.
fn occurs_at(text: &Vec<char>, pat: &Vec<char>, at: usize) -> (found: bool)
    requires
        at + pat.len() <= text.len(),
    ensures
        found == pat@.is_prefix_of(text@.skip(at as int)),
{
    let mut j: usize = 0;
    while j < pat.len()
        invariant
            j <= pat.len(),
            at + pat.len() <= text.len(),
            forall|k: int| 0 <= k < j ==> pat@[k] == text@[at + k],
        decreases pat.len() - j,
    {
        if pat[j] != text[at + j] {
            assert(text@.skip(at as int).subrange(0, pat@.len() as int)[j as int] != pat@[j as int]);
            return false;
        }
        j += 1;
    }
    assert(pat@ =~= text@.skip(at as int).subrange(0, pat@.len() as int));
    true
}

/// Replaces every occurrence of `pat` in `text` by `to`.
pub fn replace_all(text: &str, pat: &str, to: &str) -> (out: String)
    ensures
        out@ == replaced(text@, pat@, to@),
{
    let chars = chars_of(text);
    let needle = chars_of(pat);
    let n = chars.len();
    let m = needle.len();
    let mut out = String::new();
    if m == 0 || m > n {
        out.append(text);
        return out;
    }
    // `out` holds the result for `text` up to `kept`; the characters from `kept` to `at`
    // belong to no occurrence and are still to be copied.
    let mut kept: usize = 0;
    let mut at: usize = 0;
    proof {
        assert(text@.skip(0) =~= text@);
        assert(out@ + replaced(text@, pat@, to@) =~= replaced(text@, pat@, to@));
        assert(text@.subrange(0, 0) + replaced(text@, pat@, to@) =~= replaced(text@, pat@, to@));
    }
    while at <= n - m
        invariant
            0 < m <= n,
            n == chars@.len(),
            m == needle@.len(),
            chars@ == text@,
            needle@ == pat@,
            kept <= at <= n,
            out@ + replaced(text@.skip(kept as int), pat@, to@) == replaced(text@, pat@, to@),
            replaced(text@.skip(kept as int), pat@, to@) == text@.subrange(kept as int, at as int)
                + replaced(text@.skip(at as int), pat@, to@),
        decreases n - at,
    {
        let ghost rest = text@.skip(at as int);
        if occurs_at(&chars, &needle, at) {
            out.append(text.substring_char(kept, at));
            out.append(to);
            at += m;
            kept = at;
            proof {
                assert(rest.skip(m as int) =~= text@.skip(at as int));
                assert(text@.subrange(kept as int, at as int) =~= Seq::<char>::empty());
            }
        } else {
            at += 1;
            proof {
                assert(rest.skip(1) =~= text@.skip(at as int));
                assert(text@.subrange(kept as int, at as int) =~= text@.subrange(
                    kept as int,
                    at - 1,
                ) + rest.take(1));
            }
        }
    }
    proof {
        assert(text@.subrange(kept as int, at as int) + text@.skip(at as int) =~= text@.skip(
            kept as int,
        ));
    }
    out.append(text.substring_char(kept, n));
    out
}

} // verus!
