//! Verified string utilities: character-level equality, substring search
//! and path joining, specified over `Seq<char>` views.

use vstd::prelude::*;
use vstd::string::StrSliceExecFns;
use vstd::string::StringExecFns;

verus! {

/// True when `needle` occurs contiguously inside `hay`.
pub open spec fn is_substring_of(needle: Seq<char>, hay: Seq<char>) -> bool {
    exists|i: int|
        0 <= i && i + needle.len() <= hay.len() && #[trigger] hay.subrange(i, i + needle.len())
            == needle
}

/// Character-level string equality.
pub fn str_eq(a: &str, b: &str) -> (r: bool)
    ensures
        r == (a@ == b@),
{
    let la = a.unicode_len();
    let lb = b.unicode_len();
    if la != lb {
        return false;
    }
    let mut i: usize = 0;
    while i < la
        invariant
            i <= la,
            la == a@.len(),
            la == b@.len(),
            forall|t: int| 0 <= t < i ==> a@[t] == b@[t],
        decreases la - i,
    {
        if a.get_char(i) != b.get_char(i) {
            return false;
        }
        i += 1;
    }
    proof {
        assert(a@ =~= b@);
    }
    true
}

/// True when `needle` occurs at position `start` of `hay`.
fn matches_at(hay: &str, needle: &str, start: usize) -> (r: bool)
    requires
        start + needle@.len() <= hay@.len(),
        hay@.len() <= usize::MAX,
    ensures
        r == (hay@.subrange(start as int, start + needle@.len()) == needle@),
{
    let n = needle.unicode_len();
    let mut j: usize = 0;
    while j < n
        invariant
            j <= n,
            n == needle@.len(),
            start + n <= hay@.len(),
            hay@.len() <= usize::MAX,
            forall|t: int| 0 <= t < j ==> hay@[start + t] == needle@[t],
        decreases n - j,
    {
        if hay.get_char(start + j) != needle.get_char(j) {
            proof {
                assert(hay@.subrange(start as int, start + needle@.len())[j as int] == hay@[start
                    + j]);
            }
            return false;
        }
        j += 1;
    }
    proof {
        assert(hay@.subrange(start as int, start + needle@.len()) =~= needle@);
    }
    true
}

/// Substring search: scans every starting position of `hay`.
pub fn contains_substring(hay: &str, needle: &str) -> (r: bool)
    ensures
        r == is_substring_of(needle@, hay@),
{
    let n = needle.unicode_len();
    let h = hay.unicode_len();
    if n > h {
        return false;
    }
    if n == 0 {
        proof {
            assert(hay@.subrange(0, 0 + needle@.len() as int) =~= needle@);
        }
        return true;
    }
    let mut start: usize = 0;
    while start <= h - n
        invariant
            1 <= n <= h,
            h == hay@.len(),
            n == needle@.len(),
            start <= h - n + 1,
            forall|k: int|
                0 <= k < start ==> #[trigger] hay@.subrange(k, k + needle@.len()) != needle@,
        decreases h - n - start + 1,
    {
        if matches_at(hay, needle, start) {
            return true;
        }
        start += 1;
    }
    false
}

/// The segments of a path joined with `::` separators.
pub open spec fn spec_join_path(segments: Seq<Seq<char>>) -> Seq<char>
    decreases segments.len(),
{
    if segments.len() == 0 {
        Seq::empty()
    } else if segments.len() == 1 {
        segments[0]
    } else {
        spec_join_path(segments.drop_last()) + "::"@ + segments.last()
    }
}

/// Joins path segments with `::` separators, as written in source.
pub fn join_path(segments: &Vec<String>) -> (r: String)
    ensures
        r@ == spec_join_path(segments.deep_view()),
{
    let mut out = String::new();
    let mut i: usize = 0;
    while i < segments.len()
        invariant
            i <= segments@.len(),
            out@ == spec_join_path(segments.deep_view().take(i as int)),
        decreases segments@.len() - i,
    {
        if i > 0 {
            out.append("::");
        }
        out.append(segments[i].as_str());
        proof {
            let pref = segments.deep_view().take(i + 1);
            assert(pref.drop_last() =~= segments.deep_view().take(i as int));
            assert(pref.last() == segments.deep_view()[i as int]);
            if i == 0 {
                assert(out@ =~= pref[0]);
            }
        }
        i += 1;
    }
    proof {
        assert(segments.deep_view().take(segments.deep_view().len() as int) =~= segments.deep_view());
    }
    out
}

} // verus!
