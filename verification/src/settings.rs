//! Tool-side settings: how this program reaches mihomo and its timeouts.
use vstd::prelude::*;
use crate::strings::{to_owned_string, push_str};

verus! {

/// Settings of the TUI itself; mihomo's own listening ports belong to its configuration.
pub struct Settings {
    pub mihomo_ctrl_addr: String,
    pub test_url: String,
    pub delay_timeout_ms: u64,
    pub http_timeout_ms: u64,
    pub delay_http_timeout_ms: u64,
    pub provider_retry: u32,
    pub provider_retry_interval_ms: u64,
    pub poll_interval_ms: u64,
    pub mihomo_exe: String,
    pub channel_capacity: usize,
}

/// Default latency-test URL.
pub const DEFAULT_TEST_URL: &'static str = "https://www.gstatic.com/generate_204";

impl Default for Settings {
    fn default() -> (s: Self)
        ensures
            s.mihomo_ctrl_addr@ == "127.0.0.1:9090"@,
            s.test_url@ == DEFAULT_TEST_URL@,
            s.delay_timeout_ms == 5000,
            s.http_timeout_ms == 5000,
            s.delay_http_timeout_ms == 6000,
            s.provider_retry == 6,
            s.provider_retry_interval_ms == 500,
            s.poll_interval_ms == 100,
            s.mihomo_exe@ == Seq::<char>::empty(),
            s.channel_capacity == 16,
    {
        Settings {
            mihomo_ctrl_addr: to_owned_string("127.0.0.1:9090"),
            test_url: to_owned_string(DEFAULT_TEST_URL),
            delay_timeout_ms: 5000,
            http_timeout_ms: 5000,
            delay_http_timeout_ms: 6000,
            provider_retry: 6,
            provider_retry_interval_ms: 500,
            poll_interval_ms: 100,
            mihomo_exe: String::new(),
            channel_capacity: 16,
        }
    }
}

/// The `Duration` that `Duration::from_millis` builds from `ms`.
pub uninterp spec fn duration_of_millis(ms: u64) -> core::time::Duration;

/// `Duration::from_millis`: a span of `ms` milliseconds.
#[verifier::external_body]
fn millis(ms: u64) -> (d: core::time::Duration)
    ensures
        d == duration_of_millis(ms),
{
    core::time::Duration::from_millis(ms)
}

impl Settings {
    /// RESTful API base address, derived from the external-controller address.
    pub fn api_url(&self) -> (r: String)
        ensures
            r@ == "http://"@ + self.mihomo_ctrl_addr@,
    {
        let mut r = to_owned_string("http://");
        push_str(&mut r, self.mihomo_ctrl_addr.as_str());
        r
    }

    pub fn http_timeout(&self) -> (d: core::time::Duration)
        ensures
            d == duration_of_millis(self.http_timeout_ms),
    {
        millis(self.http_timeout_ms)
    }

    pub fn delay_http_timeout(&self) -> (d: core::time::Duration)
        ensures
            d == duration_of_millis(self.delay_http_timeout_ms),
    {
        millis(self.delay_http_timeout_ms)
    }

    pub fn provider_retry_interval(&self) -> (d: core::time::Duration)
        ensures
            d == duration_of_millis(self.provider_retry_interval_ms),
    {
        millis(self.provider_retry_interval_ms)
    }

    pub fn poll_interval(&self) -> (d: core::time::Duration)
        ensures
            d == duration_of_millis(self.poll_interval_ms),
    {
        millis(self.poll_interval_ms)
    }
}

} // verus!
