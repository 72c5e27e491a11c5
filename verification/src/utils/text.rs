//! Equality and search on texts.

use vstd::prelude::*;
use vstd::string::StringSliceAdditionalSpecFns;
use vstd::utf8::{decode_utf8, encode_utf8, encode_utf8_decode_utf8};

verus! {

/// Two texts with the same UTF-8 bytes are the same text.
pub proof fn lemma_same_bytes_same_text(a: Seq<char>, b: Seq<char>)
    requires
        encode_utf8(a) == encode_utf8(b),
    ensures
        a == b,
{
    encode_utf8_decode_utf8(a);
    encode_utf8_decode_utf8(b);
    assert(decode_utf8(encode_utf8(a)) == decode_utf8(encode_utf8(b)));
}

/// Whether two string slices hold the same text.
pub fn str_eq(a: &str, b: &str) -> (same: bool)
    ensures
        same == (a@ == b@),
{
    let x = a.as_bytes();
    let y = b.as_bytes();
    if x.len() != y.len() {
        return false;
    }
    let mut i: usize = 0;
    while i < x.len()
        invariant
            i <= x.len(),
            x.len() == y.len(),
            x@ == a.spec_bytes(),
            y@ == b.spec_bytes(),
            forall|j: int| 0 <= j < i ==> x@[j] == y@[j],
        decreases x.len() - i,
    {
        if x[i] != y[i] {
            return false;
        }
        i += 1;
    }
    proof {
        assert(x@ =~= y@);
        lemma_same_bytes_same_text(a@, b@);
    }
    true
}

/// Whether `part` stands in `whole` at offset `at`.
pub open spec fn occurs_at(part: Seq<u8>, whole: Seq<u8>, at: int) -> bool {
    0 <= at && at + part.len() <= whole.len() && whole.subrange(at, at + part.len()) == part
}

/// Whether `part` stands somewhere in `whole`.
pub open spec fn occurs_in(part: Seq<u8>, whole: Seq<u8>) -> bool {
    exists|at: int| occurs_at(part, whole, at)
}

/// Whether `part` stands in `whole` at offset `at`.
fn matches_at(part: &[u8], whole: &[u8], at: usize) -> (found: bool)
    requires
        at + part.len() <= whole.len(),
    ensures
        found == occurs_at(part@, whole@, at as int),
{
    let mut i: usize = 0;
    while i < part.len()
        invariant
            i <= part.len(),
            at + part.len() <= whole.len(),
            forall|j: int| 0 <= j < i ==> whole@[at + j] == part@[j],
        decreases part.len() - i,
    {
        if whole[at + i] != part[i] {
            proof {
                let piece = whole@.subrange(at as int, at + part@.len());
                assert(piece[i as int] == whole@[at + i]);
            }
            return false;
        }
        i += 1;
    }
    assert(whole@.subrange(at as int, at + part@.len()) =~= part@);
    true
}

/// Whether the text `needle` stands somewhere in the text `haystack`, byte
/// for byte in their UTF-8 encoding.
pub fn contains(haystack: &str, needle: &str) -> (found: bool)
    ensures
        found == occurs_in(needle.spec_bytes(), haystack.spec_bytes()),
{
    let whole = haystack.as_bytes();
    let part = needle.as_bytes();
    if part.len() > whole.len() {
        return false;
    }
    let last = whole.len() - part.len();
    let mut at: usize = 0;
    loop
        invariant
            at <= last,
            last == whole.len() - part.len(),
            part.len() <= whole.len(),
            whole@ == haystack.spec_bytes(),
            part@ == needle.spec_bytes(),
            forall|k: int| 0 <= k < at ==> !occurs_at(part@, whole@, k),
        decreases last - at,
    {
        if matches_at(part, whole, at) {
            return true;
        }
        if at == last {
            return false;
        }
        at += 1;
    }
}

} // verus!
