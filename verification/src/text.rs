//! Character-level string helpers: equality, substring search, and building
//! a `String` one character at a time.
use vstd::prelude::*;

verus! {

/// `needle` occurs in `hay` at position `i`.
pub open spec fn occurs_at(hay: Seq<char>, needle: Seq<char>, i: int) -> bool {
    0 <= i && i + needle.len() <= hay.len() && hay.subrange(i, i + needle.len()) == needle
}

/// `needle` occurs somewhere in `hay`.
pub open spec fn contains_seq(hay: Seq<char>, needle: Seq<char>) -> bool {
    exists|i: int| occurs_at(hay, needle, i)
}

/// Appends one character to a `String` (`String::push`).
#[verifier::external_body]
pub(crate) fn push_char(s: &mut String, c: char)
    ensures
        final(s)@ == old(s)@.push(c),
{
    s.push(c)
}

/// Whether two strings hold the same characters.
pub fn str_eq(a: &str, b: &str) -> (r: bool)
    ensures
        r == (a@ == b@),
{
    let n = a.unicode_len();
    if n != b.unicode_len() {
        return false;
    }
    let mut i: usize = 0;
    while i < n
        invariant
            n == a@.len(),
            n == b@.len(),
            i <= n,
            forall|k: int| 0 <= k < i ==> a@[k] == b@[k],
        decreases n - i,
    {
        if a.get_char(i) != b.get_char(i) {
            return false;
        }
        i = i + 1;
    }
    assert(a@ =~= b@);
    true
}

/// Whether `needle` occurs in `hay` as a contiguous run of characters.
pub fn str_contains(hay: &str, needle: &str) -> (r: bool)
    ensures
        r == contains_seq(hay@, needle@),
{
    let h = hay.unicode_len();
    let n = needle.unicode_len();
    if n > h {
        assert forall|i: int| !occurs_at(hay@, needle@, i) by {}
        return false;
    }
    let last = h - n;
    let mut i: usize = 0;
    loop
        invariant
            h == hay@.len(),
            n == needle@.len(),
            n <= h,
            last == h - n,
            i <= last,
            forall|j: int| 0 <= j < i ==> !occurs_at(hay@, needle@, j),
        decreases last - i,
    {
        let mut k: usize = 0;
        let mut matched = true;
        while k < n
            invariant
                h == hay@.len(),
                n == needle@.len(),
                i + n <= h,
                k <= n,
                matched ==> forall|m: int| 0 <= m < k ==> hay@[i + m] == needle@[m],
                !matched ==> !occurs_at(hay@, needle@, i as int),
            decreases n - k,
        {
            if matched && hay.get_char(i + k) != needle.get_char(k) {
                matched = false;
                assert(hay@.subrange(i as int, i + n)[k as int] != needle@[k as int]);
            }
            k = k + 1;
        }
        if matched {
            assert(hay@.subrange(i as int, i + n) =~= needle@);
            assert(occurs_at(hay@, needle@, i as int));
            return true;
        }
        if i == last {
            assert forall|j: int| !occurs_at(hay@, needle@, j) by {
                if 0 <= j && j + n <= h {
                    assert(j <= i);
                }
            }
            return false;
        }
        i = i + 1;
    }
}

} // verus!
