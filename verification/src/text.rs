//! Comparing and decoding text held as bytes.

use core::str::Utf8Error;
use vstd::prelude::*;
use vstd::utf8::*;

verus! {

/// `core::str::Utf8Error`, the error of bytes that are no UTF-8 text. It is
/// carried through as it is.
#[verifier::external_type_specification]
#[verifier::external_body]
pub struct ExUtf8Error(Utf8Error);

/// Reads bytes as text with `core::str::from_utf8`: the bytes are taken as
/// they are where they are well-formed UTF-8, and refused where they are not.
#[verifier::external_body]
pub(crate) fn text_of(data: &[u8]) -> (res: Result<&str, Utf8Error>)
    ensures
        res is Ok <==> valid_utf8(data@),
        res matches Ok(text) ==> encode_utf8(text@) == data@,
{
    core::str::from_utf8(data)
}

/// Tells whether two byte strings hold the same bytes.
pub fn same_bytes(a: &[u8], b: &[u8]) -> (same: bool)
    ensures
        same == (a@ == b@),
{
    if a.len() != b.len() {
        return false;
    }
    let mut i: usize = 0;
    while i < a.len()
        invariant
            i <= a.len(),
            a.len() == b.len(),
            forall|j: int| 0 <= j < i ==> a@[j] == b@[j],
        decreases a.len() - i,
    {
        if a[i] != b[i] {
            return false;
        }
        i += 1;
    }
    assert(a@ =~= b@);
    true
}

/// Two texts are the same exactly when their UTF-8 encodings are.
pub proof fn lemma_encoding_tells_texts_apart(a: Seq<char>, b: Seq<char>)
    ensures
        (encode_utf8(a) == encode_utf8(b)) == (a == b),
{
    encode_utf8_decode_utf8(a);
    encode_utf8_decode_utf8(b);
}

/// Tells whether two texts hold the same characters.
pub fn same_text(a: &str, b: &str) -> (same: bool)
    ensures
        same == (a@ == b@),
{
    proof {
        lemma_encoding_tells_texts_apart(a@, b@);
    }
    same_bytes(a.as_bytes(), b.as_bytes())
}

} // verus!
