//! MD5 digests, as the `rust-crypto` crate computes them.
use vstd::prelude::*;
use crypto::digest::Digest;
use crypto::md5::Md5;

verus! {

/// The hexadecimal MD5 digest of `data`, as `Md5::result_str` writes it.
pub uninterp spec fn md5_hex(data: Seq<u8>) -> Seq<char>;

/// A lowercase hexadecimal digit.
pub open spec fn is_lower_hex(c: char) -> bool {
    ('0' <= c && c <= '9') || ('a' <= c && c <= 'f')
}

/// Feeds `data` to a fresh `crypto::md5::Md5` (`Digest::input`) and reads the digest
/// with `Digest::result_str`. The digest itself is named, not stated; the source shows
/// that `result_str` writes the 16 digest bytes as 32 lowercase hexadecimal digits.
#[verifier::external_body]
pub(crate) fn md5_hex_digest(data: &[u8]) -> (s: String)
    ensures
        s@ == md5_hex(data@),
        s@.len() == 32,
        forall|i: int| 0 <= i < 32 ==> is_lower_hex(#[trigger] s@[i]),
{
    let mut md5 = Md5::new();
    md5.input(data);
    md5.result_str()
}

} // verus!
