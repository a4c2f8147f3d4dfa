//! Compression and hashing of document contents, through the `lz4_flex` and
//! `sha2` crates, and UTF-8 decoding through `std`: strict for stored
//! documents, lossy for the reporter's output.

use vstd::prelude::*;
use vstd::utf8::*;

verus! {

/// The output of `lz4_flex::compress_prepend_size` on `data`: an LZ4 block
/// preceded by the length of `data` as a little-endian `u32`.
pub uninterp spec fn lz4_block(data: Seq<u8>) -> Seq<u8>;

/// The SHA-256 digest of `data`, as computed by `sha2::Sha256`.
pub uninterp spec fn sha256(data: Seq<u8>) -> Seq<u8>;

#[verifier::external_type_specification]
#[verifier::external_body]
pub struct ExDecompressError(lz4_flex::block::DecompressError);

/// Calls `lz4_flex::compress_prepend_size`. Claimed: the result is the named
/// block for `data`. Left out: inputs so long that the crate's bound on the
/// output length, `20 + len * 110 / 100`, overflows.
#[verifier::external_body]
pub(crate) fn compress_prepend_size(data: &[u8]) -> (r: Vec<u8>)
    requires
        data@.len() <= usize::MAX / 110,
    ensures
        r@ == lz4_block(data@),
{
    lz4_flex::compress_prepend_size(data)
}

/// Calls `lz4_flex::decompress_size_prepended`, only on blocks that
/// `compress_prepend_size` made from data whose length fits in the `u32` the
/// block starts with; on other input the decoder can overflow a counter.
/// Claimed, as the crate documents the two for use together: such a block
/// decompresses to the data it was made from.
#[verifier::external_body]
pub(crate) fn decompress_size_prepended(block: &[u8]) -> (r: Result<Vec<u8>, lz4_flex::block::DecompressError>)
    requires
        exists|d: Seq<u8>| lz4_block(d) == block@ && d.len() <= u32::MAX,
    ensures
        r is Ok,
        r matches Ok(v) ==> forall|d: Seq<u8>| lz4_block(d) == block@ && d.len() <= u32::MAX ==> v@ == d,
{
    lz4_flex::decompress_size_prepended(block)
}

/// Calls `sha2::Sha256::digest`. Claimed: the result is the named digest of
/// `data`, 32 bytes long.
#[verifier::external_body]
pub(crate) fn sha256_digest(data: &[u8]) -> (r: Vec<u8>)
    ensures
        r@ == sha256(data@),
        r@.len() == 32,
{
    <sha2::Sha256 as sha2::Digest>::digest(data).to_vec()
}

/// Calls `String::from_utf8`. Claimed, as `std` documents it: the bytes are
/// taken as they are when they are valid UTF-8, and refused otherwise.
#[verifier::external_body]
pub(crate) fn string_from_utf8(bytes: Vec<u8>) -> (r: Option<String>)
    ensures
        r is Some <==> valid_utf8(bytes@),
        r matches Some(s) ==> encode_utf8(s@) == bytes@,
{
    String::from_utf8(bytes).ok()
}

/// What `String::from_utf8_lossy` makes of `bytes`: the text they encode,
/// with each invalid sequence replaced by U+FFFD.
pub uninterp spec fn lossy_text(bytes: Seq<u8>) -> Seq<char>;

/// Calls `String::from_utf8_lossy`. Claimed: the result is the named text of
/// `bytes`, and, as `std` documents it, exactly the text they encode where
/// they are valid UTF-8.
#[verifier::external_body]
pub(crate) fn string_from_utf8_lossy(bytes: &[u8]) -> (r: String)
    ensures
        r@ == lossy_text(bytes@),
        valid_utf8(bytes@) ==> r@ == decode_utf8(bytes@),
{
    String::from_utf8_lossy(bytes).into_owned()
}

} // verus!
