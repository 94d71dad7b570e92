//! Replies of the mihomo RESTful API that the TUI reads, and the endpoints it calls.
use vstd::prelude::*;
use crate::config::DEFAULT_GROUP;
use crate::strings::{to_owned_string, push_str, push_decimal, decimal};

verus! {

/// A proxy group as `/proxies/{group}` describes it.
#[derive(Debug, Clone)]
pub struct ProxyReport {
    pub alive: bool,
    pub all: Vec<String>,
    pub dialer_proxy: String,
    pub hidden: bool,
    pub icon: String,
    pub interface: String,
    pub name: String,
    pub now: String,
    pub node_type: String,
}

/// `/version`.
#[derive(Debug, Clone)]
pub struct VersionReport {
    pub version: String,
}

/// A section with an `enable` switch (TUN, DNS).
#[derive(Debug, Clone, Copy, PartialEq, Eq, Structural)]
pub struct EnableReport {
    pub enable: bool,
}

/// The fields of `/configs` shown at run time; missing ports are 0.
#[derive(Debug, Clone)]
pub struct ConfigsReport {
    pub port: u16,
    pub mixed_port: u16,
    pub socks_port: u16,
    pub mode: String,
    pub tun: Option<EnableReport>,
    pub dns: Option<EnableReport>,
}

/// Traffic totals of `/connections`.
#[derive(Debug, Clone, Copy, PartialEq, Eq, Structural)]
pub struct ConnectionsReport {
    pub upload_total: u64,
    pub download_total: u64,
}

/// The group the API calls address: `group`, or `Proxy` when it is empty.
pub fn group_or_default(group: &str) -> (r: String)
    ensures
        r@ == (if group@.len() == 0 { DEFAULT_GROUP@ } else { group@ }),
{
    if group.is_empty() { to_owned_string(DEFAULT_GROUP) } else { to_owned_string(group) }
}

/// `base` followed by `path`.
pub fn endpoint(base: &str, path: &str) -> (r: String)
    ensures
        r@ == base@ + path@,
{
    let mut r = to_owned_string(base);
    push_str(&mut r, path);
    r
}

/// Path of a proxy group: `/proxies/{group}`.
pub fn proxies_path(group: &str) -> (r: String)
    ensures
        r@ == "/proxies/"@ + group@,
{
    let mut r = to_owned_string("/proxies/");
    push_str(&mut r, group);
    r
}

/// Path of a group latency test: `/group/{group}/delay?timeout={ms}&url={url}`.
pub fn delay_path(group: &str, timeout_ms: u64, test_url: &str) -> (r: String)
    ensures
        r@ == "/group/"@ + group@ + "/delay?timeout="@ + decimal(timeout_ms as nat) + "&url="@ + test_url@,
{
    let mut r = to_owned_string("/group/");
    push_str(&mut r, group);
    push_str(&mut r, "/delay?timeout=");
    push_decimal(&mut r, timeout_ms);
    push_str(&mut r, "&url=");
    push_str(&mut r, test_url);
    r
}

} // verus!
