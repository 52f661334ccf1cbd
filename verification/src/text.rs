//! Byte-level text helpers shared by the binary and text codecs.
//!
//! Strings inside the level formats are stored as byte arrays (zero-padded
//! names, text lines). The codec works on bytes and converts to [`String`]
//! at the API boundary.

use vstd::prelude::*;
use vstd::string::StringSliceAdditionalSpecFns;

verus! {

/// The bytes of `s` shortened by its trailing zero bytes.
pub open spec fn spec_trim_zeros(s: Seq<u8>) -> Seq<u8>
    decreases s.len(),
{
    if s.len() > 0 && s[s.len() - 1] == 0 {
        spec_trim_zeros(s.drop_last())
    } else {
        s
    }
}

/// Drops trailing zero bytes, as the engine does with zero-padded names.
pub fn trim_zero_bytes(mut v: Vec<u8>) -> (r: Vec<u8>)
    ensures
        r@ == spec_trim_zeros(v@),
{
    let ghost orig = v@;
    while v.len() > 0 && v[v.len() - 1] == 0
        invariant
            spec_trim_zeros(v@) == spec_trim_zeros(orig),
        decreases v.len(),
    {
        proof {
            assert(v@.drop_last() =~= v@.subrange(0, v@.len() - 1));
        }
        v.pop();
    }
    v
}

/// Decodes bytes as UTF-8.
///
/// Relies on `String::from_utf8`: it succeeds exactly on valid UTF-8 input
/// and returns the decoded string.
#[verifier::external_body]
pub fn string_from_utf8(v: Vec<u8>) -> (r: Option<String>)
    ensures
        r is Some <==> vstd::utf8::valid_utf8(v@),
        r is Some ==> r.unwrap()@ == vstd::utf8::decode_utf8(v@),
{
    match String::from_utf8(v) {
        Ok(s) => Some(s),
        Err(_) => None,
    }
}

/// The UTF-8 bytes of a string, as an owned vector.
pub fn string_to_bytes(s: &str) -> (r: Vec<u8>)
    ensures
        r@ == s.spec_bytes(),
{
    vstd::slice::slice_to_vec(s.as_bytes())
}

} // verus!
