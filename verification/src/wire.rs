//! Helpers on raw farm messages.

use vstd::prelude::*;

verus! {

/// Whether `pat` occurs in `msg` at index `k`.
pub open spec fn occurs_at(msg: Seq<u8>, pat: Seq<u8>, k: int) -> bool {
    0 <= k && k + pat.len() <= msg.len() && msg.subrange(k, k + pat.len()) == pat
}

/// The first index at or after `k` where `pat` occurs in `msg`.
pub open spec fn first_occurrence_from(msg: Seq<u8>, pat: Seq<u8>, k: int) -> Option<int>
    decreases msg.len() + 1 - k,
    when 0 <= k <= msg.len() + 1
{
    if k + pat.len() > msg.len() {
        None
    } else if occurs_at(msg, pat, k) {
        Some(k)
    } else {
        first_occurrence_from(msg, pat, k + 1)
    }
}

/// The bytes of `msg` after the first occurrence of `pat`, if it occurs.
pub open spec fn body_after(msg: Seq<u8>, pat: Seq<u8>) -> Option<Seq<u8>> {
    match first_occurrence_from(msg, pat, 0) {
        Some(k) => Some(msg.subrange(k + pat.len(), msg.len() as int)),
        None => None,
    }
}

pub(crate) fn occurs_here(msg: &[u8], pat: &[u8], k: usize) -> (r: bool)
    requires
        k + pat@.len() <= msg@.len(),
    ensures
        r == occurs_at(msg@, pat@, k as int),
{
    let n = pat.len();
    let mut i: usize = 0;
    while i < n
        invariant
            n == pat@.len(),
            k + n <= msg.len(),
            msg.len() == msg@.len(),
            i <= n,
            forall|j: int| 0 <= j < i ==> msg@[k + j] == pat@[j],
        decreases n - i,
    {
        if msg[k + i] != pat[i] {
            assert(msg@.subrange(k as int, k + n)[i as int] != pat@[i as int]);
            return false;
        }
        i = i + 1;
    }
    assert(msg@.subrange(k as int, k + n) =~= pat@);
    true
}

/// The body of a message: the bytes after the first occurrence of `tag`
/// (such as `35=P` followed by the field separator), `None` if it does not occur.
pub fn find_body_after_tag<'a>(msg: &'a [u8], tag: &[u8]) -> (r: Option<&'a [u8]>)
    ensures
        r is Some <==> body_after(msg@, tag@) is Some,
        r matches Some(body) ==> Some(body@) == body_after(msg@, tag@),
{
    let n = msg.len();
    let m = tag.len();
    if m > n {
        return None;
    }
    if m == 0 {
        proof {
            assert(msg@.subrange(0, 0) =~= tag@);
        }
        return Some(msg);
    }
    let mut k: usize = 0;
    while k <= n - m
        invariant
            n == msg@.len(),
            m == tag@.len(),
            1 <= m <= n,
            k <= n - m + 1,
            first_occurrence_from(msg@, tag@, 0) == first_occurrence_from(msg@, tag@, k as int),
        decreases n - m + 1 - k,
    {
        if occurs_here(msg, tag, k) {
            return Some(&msg[k + m..n]);
        }
        k = k + 1;
    }
    None
}

/// Index of the first occurrence of a non-empty `pat` in `msg`.
pub fn find_occurrence(msg: &[u8], pat: &[u8]) -> (r: Option<usize>)
    requires
        pat@.len() > 0,
    ensures
        match r {
            Some(k) => first_occurrence_from(msg@, pat@, 0) == Some(k as int),
            None => first_occurrence_from(msg@, pat@, 0) is None,
        },
{
    let n = msg.len();
    let m = pat.len();
    if m > n {
        return None;
    }
    let mut k: usize = 0;
    while k <= n - m
        invariant
            n == msg@.len(),
            m == pat@.len(),
            1 <= m <= n,
            k <= n - m + 1,
            first_occurrence_from(msg@, pat@, 0) == first_occurrence_from(msg@, pat@, k as int),
        decreases n - m + 1 - k,
    {
        if occurs_here(msg, pat, k) {
            return Some(k);
        }
        k = k + 1;
    }
    None
}

} // verus!
