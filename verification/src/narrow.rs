//! Byte texts as C hands them over: UTF-8 in buffers that end at a NUL.
use crate::text::{before_first, lemma_before_first, trim, trimmed};
use vstd::prelude::*;
use vstd::utf8::{decode_utf8, valid_utf8};

verus! {

/// `std::str::from_utf8`: the text that the bytes encode, none where they are not UTF-8.
#[verifier::external_body]
fn utf8_text(bytes: &[u8]) -> (r: Option<String>)
    ensures
        r is Some == valid_utf8(bytes@),
        r is Some ==> r->0@ == decode_utf8(bytes@),
{
    std::str::from_utf8(bytes).ok().map(str::to_owned)
}

/// The text of bytes that need not be UTF-8, with replacement characters where they are not.
pub uninterp spec fn lossy_text(bytes: Seq<u8>) -> Seq<char>;

/// `String::from_utf8_lossy`: the text that the bytes encode where they are UTF-8. For other
/// bytes the result is named, not stated.
#[verifier::external_body]
fn utf8_lossy(bytes: &[u8]) -> (r: String)
    ensures
        r@ == lossy_text(bytes@),
        valid_utf8(bytes@) ==> r@ == decode_utf8(bytes@),
{
    String::from_utf8_lossy(bytes).into_owned()
}

/// The number of bytes before the first NUL.
fn length_before_nul(bytes: &[u8]) -> (n: usize)
    ensures
        n <= bytes@.len(),
        bytes@.subrange(0, n as int) == before_first(bytes@, 0),
{
    let mut n: usize = 0;
    while n < bytes.len() && bytes[n] != 0
        invariant
            n <= bytes@.len(),
            forall|i: int| 0 <= i < n ==> bytes@[i] != 0,
        decreases bytes@.len() - n,
    {
        n = n + 1;
    }
    proof {
        lemma_before_first(bytes@, 0, n as int);
    }
    n
}

/// The text before the first NUL, none where that is not UTF-8.
pub fn strict_c_str(bytes: &[u8]) -> (r: Option<String>)
    ensures
        r is Some == valid_utf8(before_first(bytes@, 0)),
        r is Some ==> r->0@ == decode_utf8(before_first(bytes@, 0)),
{
    let n = length_before_nul(bytes);
    utf8_text(vstd::slice::slice_subrange(bytes, 0, n))
}

/// The text before the first NUL, without white space around it.
pub fn c_str(bytes: &[u8]) -> (r: String)
    ensures
        r@ == trimmed(lossy_text(before_first(bytes@, 0))),
        valid_utf8(before_first(bytes@, 0)) ==> r@ == trimmed(
            decode_utf8(before_first(bytes@, 0)),
        ),
{
    let n = length_before_nul(bytes);
    let text = utf8_lossy(vstd::slice::slice_subrange(bytes, 0, n));
    trim(text.as_str())
}

} // verus!
