//! The system proxy switch. On this platform it is not supported: every call
//! reports so.
use vstd::prelude::*;

verus! {

/// `std::io::Error::new(ErrorKind::Unsupported, ..)` with the message that
/// this platform has no system proxy support. Nothing is stated of the error
/// value, whose contents Verus cannot see.
#[verifier::external_body]
fn unsupported() -> std::io::Error {
    std::io::Error::new(std::io::ErrorKind::Unsupported, "暂不支持linux的系统代理喵，自己去source喵")
}

/// Turns the system proxy on (not supported here).
pub fn enable_proxy(proxy_addr: &str) -> (r: Result<(), std::io::Error>)
    ensures
        r is Err,
{
    Err(unsupported())
}

/// Turns the system proxy off (not supported here).
pub fn disable_proxy() -> (r: Result<(), std::io::Error>)
    ensures
        r is Err,
{
    Err(unsupported())
}

/// Reads the system proxy state as (enabled flag, address) (not supported here).
pub fn get_proxy_status() -> (r: Result<(u32, String), std::io::Error>)
    ensures
        r is Err,
{
    Err(unsupported())
}

/// Whether a status read says the proxy is on (flag 1); failures count as off.
pub fn proxy_enabled(status: &Result<(u32, String), std::io::Error>) -> (r: bool)
    ensures
        r == (status matches Ok((code, _)) && code == 1),
{
    match status {
        Ok((code, _)) => *code == 1,
        Err(_) => false,
    }
}

} // verus!
