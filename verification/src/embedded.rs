//! The embedded mihomo executable: gzip payload, extraction checks, and the
//! error a build without the payload gives.
use vstd::prelude::*;
use crate::error::{Error, process_error};
use crate::strings::{to_owned_string, push_str, push_decimal, decimal, chars_of, string_of, is_ascii_char};

verus! {

/// Version of the embedded mihomo; this build carries none.
pub const VERSION: &'static str = "未嵌入";

/// The error of a build that does not carry mihomo.
pub open spec fn not_embedded_msg() -> Seq<char> {
    "本二进制未嵌入 mihomo（构建时请启用 embed-mihomo feature）"@
}

/// Extracts the embedded mihomo and returns its path; this build has no
/// payload and always reports so.
pub fn ensure_extracted() -> (r: Result<String, Error>)
    ensures
        r matches Err(Error::Process(m)) && m@ == not_embedded_msg(),
{
    Err(process_error("本二进制未嵌入 mihomo（构建时请启用 embed-mihomo feature）"))
}

/// Decompresses the embedded mihomo into memory; this build has no payload.
pub fn decompress_embedded() -> (r: Result<Vec<u8>, Error>)
    ensures
        r matches Err(Error::Process(m)) && m@ == not_embedded_msg(),
{
    Err(process_error("本二进制未嵌入 mihomo（构建时请启用 embed-mihomo feature）"))
}

/// What gzip decompression of `gz` yields (`None` for data that is not gzip).
pub uninterp spec fn gunzip(gz: Seq<u8>) -> Option<Seq<u8>>;

/// `flate2::read::GzDecoder::new(gz).read_to_end(..)`: the decompressed bytes,
/// or the decoder's error.
#[verifier::external_body]
fn gunzip_bytes(gz: &[u8]) -> (r: Result<Vec<u8>, std::io::Error>)
    ensures
        match r {
            Ok(v) => gunzip(gz@) == Some(v@),
            Err(_) => gunzip(gz@) is None,
        },
{
    let mut raw = Vec::new();
    match std::io::Read::read_to_end(&mut flate2::read::GzDecoder::new(gz), &mut raw) {
        Ok(_) => Ok(raw),
        Err(e) => Err(e),
    }
}

/// Decompresses a gzip payload.
pub fn decompress(gz: &[u8]) -> (r: Result<Vec<u8>, Error>)
    ensures
        match gunzip(gz@) {
            Some(v) => r matches Ok(out) && out@ == v,
            None => r matches Err(Error::Io(_)),
        },
{
    match gunzip_bytes(gz) {
        Ok(v) => Ok(v),
        Err(e) => Err(Error::Io(e)),
    }
}

/// The extracted size must be the one recorded at build time.
pub fn check_size(actual: u64, expected: u64) -> (r: Result<(), Error>)
    ensures
        actual == expected <==> r is Ok,
        actual != expected ==> (r matches Err(Error::Process(m)) && m@ == "内嵌 mihomo 解压大小不符：期望 "@
            + decimal(expected as nat) + "，实际 "@ + decimal(actual as nat)),
{
    if actual == expected {
        return Ok(());
    }
    let mut m = to_owned_string("内嵌 mihomo 解压大小不符：期望 ");
    push_decimal(&mut m, expected);
    push_str(&mut m, "，实际 ");
    push_decimal(&mut m, actual);
    Err(Error::Process(m))
}

/// An existing extracted file is reused only when its size matches.
pub fn can_reuse(existing_len: Option<u64>, expected: u64) -> (r: bool)
    ensures
        r == (existing_len == Some(expected)),
{
    match existing_len {
        Some(n) => n == expected,
        None => false,
    }
}

/// The first eight characters of a hex digest, naming the cache directory.
pub fn short_sha(sha: &str) -> (r: String)
    requires
        sha@.len() >= 8,
    ensures
        r@ == sha@.take(8),
{
    let v = chars_of(sha);
    proof {
        assert(v@.subrange(0, 8) =~= sha@.take(8));
    }
    string_of(&v, 0, 8)
}

/// File name of the extracted executable.
pub fn exe_name() -> (r: &'static str)
    ensures
        r@ == "mihomo"@,
{
    "mihomo"
}

} // verus!
