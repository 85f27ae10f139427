//! Byte-level text utilities shared by the matcher, the ledger and the adapter.

use vstd::prelude::*;
use vstd::utf8::{decode_utf8, encode_utf8, encode_utf8_decode_utf8};

verus! {

/// `pat` occurs in `text` starting at offset `k`.
pub open spec fn occurs_at(text: Seq<u8>, pat: Seq<u8>, k: int) -> bool {
    0 <= k && k + pat.len() <= text.len() && text.subrange(k, k + pat.len()) == pat
}

/// `pat` occurs somewhere in `text`.
pub open spec fn contains_bytes(text: Seq<u8>, pat: Seq<u8>) -> bool {
    exists|k: int| occurs_at(text, pat, k)
}

/// Byte-wise equality of two slices.
pub fn bytes_eq(a: &[u8], b: &[u8]) -> (r: bool)
    ensures
        r == (a@ == b@),
{
    if a.len() != b.len() {
        return false;
    }
    let mut i: usize = 0;
    while i < a.len()
        invariant
            a@.len() == b@.len(),
            0 <= i <= a@.len(),
            a@.subrange(0, i as int) == b@.subrange(0, i as int),
        decreases a@.len() - i,
    {
        if a[i] != b[i] {
            return false;
        }
        assert(a@.subrange(0, i + 1) == a@.subrange(0, i as int).push(a@[i as int]));
        assert(b@.subrange(0, i + 1) == b@.subrange(0, i as int).push(b@[i as int]));
        i = i + 1;
    }
    assert(a@ == a@.subrange(0, a@.len() as int));
    assert(b@ == b@.subrange(0, b@.len() as int));
    true
}

/// Whether `pat` occurs at offset `k` of `text`.
fn matches_at(text: &[u8], pat: &[u8], k: usize) -> (r: bool)
    requires
        k + pat@.len() <= text@.len(),
    ensures
        r == occurs_at(text@, pat@, k as int),
{
    let tl = text.len();
    let mut i: usize = 0;
    while i < pat.len()
        invariant
            tl == text@.len(),
            k + pat@.len() <= text@.len(),
            0 <= i <= pat@.len(),
            text@.subrange(k as int, k + i) == pat@.subrange(0, i as int),
        decreases pat@.len() - i,
    {
        if text[k + i] != pat[i] {
            assert(text@.subrange(k as int, k + pat@.len())[i as int] != pat@[i as int]);
            return false;
        }
        assert(text@.subrange(k as int, k + i + 1) == text@.subrange(k as int, k + i).push(
            text@[k + i],
        ));
        assert(pat@.subrange(0, i + 1) == pat@.subrange(0, i as int).push(pat@[i as int]));
        i = i + 1;
    }
    assert(pat@ == pat@.subrange(0, pat@.len() as int));
    true
}

/// Whether `pat` occurs anywhere in `text`.
pub fn find_bytes(text: &[u8], pat: &[u8]) -> (r: bool)
    ensures
        r == contains_bytes(text@, pat@),
{
    if pat.len() == 0 {
        assert(text@.subrange(0, 0) =~= pat@);
        assert(occurs_at(text@, pat@, 0));
        return true;
    }
    if pat.len() > text.len() {
        assert forall|k: int| !occurs_at(text@, pat@, k) by {}
        return false;
    }
    let tl = text.len();
    let pl = pat.len();
    let mut k: usize = 0;
    while k <= tl - pl
        invariant
            tl == text@.len(),
            pl == pat@.len(),
            pl > 0,
            pl <= tl,
            forall|j: int| 0 <= j < k ==> !occurs_at(text@, pat@, j),
        decreases tl - k,
    {
        if matches_at(text, pat, k) {
            return true;
        }
        k = k + 1;
    }
    assert forall|j: int| !occurs_at(text@, pat@, j) by {
        if 0 <= j < k {
        }
    }
    false
}

/// Whether two strings hold the same characters.
pub fn text_eq(a: &str, b: &str) -> (r: bool)
    ensures
        r == (a@ == b@),
{
    let r = bytes_eq(a.as_bytes(), b.as_bytes());
    proof {
        encode_utf8_decode_utf8(a@);
        encode_utf8_decode_utf8(b@);
        if encode_utf8(a@) == encode_utf8(b@) {
            assert(decode_utf8(encode_utf8(a@)) == decode_utf8(encode_utf8(b@)));
        }
    }
    r
}

} // verus!
