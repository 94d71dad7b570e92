//! The heartbeat: how each tick's findings about mihomo change the state.
//!
//! The program's loop probes the control port and fetches an [`ApiSnapshot`];
//! everything that follows from those results is decided here.
use vstd::prelude::*;
use crate::api::{ConfigsReport, ProxyReport, EnableReport};
use crate::error::Error;
use crate::operation_log::LogType;
use crate::process::MihomoStatus;
use crate::state::{
    MihomoState, MihomoStateView, RuntimeInfo, RuntimeView, Node, merge_nodes, node_names_changed,
    merged, nodes_view, node_names, opt_view, empty_runtime,
};
use crate::strings::{to_owned_string, push_str, str_eq};

verus! {

/// Full sync every this many ticks.
pub const FULL_EVERY_TICKS: u32 = 10;
/// Backoff stretches the period by at most 2^3.
pub const MAX_BACKOFF_SHIFT: u32 = 3;

/// What one tick fetched from the API; `None` means not fetched this tick.
#[derive(Debug)]
pub struct ApiSnapshot {
    pub configs: Option<ConfigsReport>,
    pub version: Option<String>,
    pub totals: Option<(u64, u64)>,
    pub proxies: Option<ProxyReport>,
    /// Text of the first failed request.
    pub error: Option<String>,
    /// `/configs` failed: only then is the whole API considered down.
    pub ready_probe_failed: bool,
}

impl Default for ApiSnapshot {
    fn default() -> (s: Self)
        ensures
            s.configs is None,
            s.version is None,
            s.totals is None,
            s.proxies is None,
            s.error is None,
            !s.ready_probe_failed,
    {
        ApiSnapshot { configs: None, version: None, totals: None, proxies: None, error: None, ready_probe_failed: false }
    }
}

/// Keeps the first error's text only.
pub fn record_error(snapshot: &mut ApiSnapshot, e: Error)
    ensures
        old(snapshot).error is Some ==> final(snapshot).error == old(snapshot).error,
        old(snapshot).error is None ==> final(snapshot).error is Some,
        old(snapshot).error is None ==> match e {
            Error::Api(m) => final(snapshot).error->Some_0@ == m@,
            Error::Process(m) => final(snapshot).error->Some_0@ == m@,
            Error::Config(m) => final(snapshot).error->Some_0@ == m@,
            Error::Io(_) => true,
        },
        final(snapshot).configs == old(snapshot).configs,
        final(snapshot).version == old(snapshot).version,
        final(snapshot).totals == old(snapshot).totals,
        final(snapshot).proxies == old(snapshot).proxies,
        final(snapshot).ready_probe_failed == old(snapshot).ready_probe_failed,
{
    if snapshot.error.is_none() {
        snapshot.error = Some(e.to_string());
    }
}

pub open spec fn logs_view(v: Seq<(LogType, String)>) -> Seq<(LogType, Seq<char>)> {
    v.map_values(|p: (LogType, String)| (p.0, p.1@))
}

pub open spec fn strs(v: Seq<String>) -> Seq<Seq<char>> {
    v.map_values(|s: String| s@)
}

/// Position of the first `x` in `s`.
pub open spec fn first_index(s: Seq<Seq<char>>, x: Seq<char>) -> Option<int>
    decreases s.len(),
{
    if s.len() == 0 {
        None
    } else if s[0] == x {
        Some(0)
    } else {
        match first_index(s.drop_first(), x) {
            Some(i) => Some(i + 1),
            None => None,
        }
    }
}

pub open spec fn as_index(o: Option<int>) -> Option<usize> {
    match o { Some(i) => Some(i as usize), None => None }
}

pub open spec fn enable_of(r: Option<EnableReport>) -> Option<bool> {
    match r { Some(e) => Some(e.enable), None => None }
}

/// Message when the API goes away.
pub open spec fn disconnect_msg(error: Option<Seq<char>>) -> Seq<char> {
    "mihomo API 连接断开: "@ + match error { Some(e) => e, None => "未知错误"@ }
}

/// The runtime after taking in a successful snapshot's configs, version and totals.
pub open spec fn runtime_after(rt: RuntimeView, snap: ApiSnapshot) -> RuntimeView {
    let a = match snap.configs {
        Some(c) => RuntimeView {
            api_ready: true,
            mode: Some(c.mode@),
            mixed_port: Some(c.mixed_port),
            http_port: Some(c.port),
            socks_port: Some(c.socks_port),
            tun_enabled: enable_of(c.tun),
            dns_enabled: enable_of(c.dns),
            ..rt
        },
        None => rt,
    };
    let b = match snap.version {
        Some(v) => RuntimeView { version: Some(v@), ..a },
        None => a,
    };
    match snap.totals {
        Some((u, d)) => RuntimeView { upload_total: u, download_total: d, ..b },
        None => b,
    }
}

/// mihomo answers only `DIRECT` while it reloads; that list is not shown over a real one.
pub open spec fn transient_direct(all: Seq<Seq<char>>) -> bool {
    all.len() == 1 && all[0] == "DIRECT"@
}

/// Whether a proxies report replaces the node list.
pub open spec fn nodes_update(s: MihomoStateView, p: ProxyReport) -> bool {
    let all = strs(p.all@);
    let new_nodes = merged(s.nodes, all);
    let active = as_index(first_index(all, p.now@));
    !(transient_direct(all) && s.nodes.len() > 0)
        && (new_nodes.map_values(|n: (Seq<char>, Seq<char>)| n.0)
            != s.nodes.map_values(|n: (Seq<char>, Seq<char>)| n.0)
            || s.active_node != active)
}

/// The state after a snapshot.
pub open spec fn snapshot_next(s: MihomoStateView, snap: ApiSnapshot) -> MihomoStateView {
    if snap.ready_probe_failed {
        MihomoStateView { runtime: RuntimeView { api_ready: false, ..s.runtime }, ..s }
    } else {
        let s1 = MihomoStateView { runtime: runtime_after(s.runtime, snap), ..s };
        match snap.proxies {
            Some(p) => if nodes_update(s, p) {
                let all = strs(p.all@);
                MihomoStateView {
                    nodes: merged(s.nodes, all),
                    active_node: as_index(first_index(all, p.now@)),
                    ..s1
                }
            } else {
                s1
            },
            None => s1,
        }
    }
}

/// The log lines a snapshot produces: one for losing the API, or one for the
/// API becoming ready and one for a changed node list.
pub open spec fn snapshot_logs(s: MihomoStateView, snap: ApiSnapshot) -> Seq<(LogType, Seq<char>)> {
    if snap.ready_probe_failed {
        if s.runtime.api_ready {
            seq![(LogType::Warn, disconnect_msg(opt_view(snap.error)))]
        } else {
            seq![]
        }
    } else {
        let ready: Seq<(LogType, Seq<char>)> = if snap.configs is Some && !s.runtime.api_ready {
            seq![(LogType::Info, "mihomo 已就绪，开始同步信息"@)]
        } else {
            seq![]
        };
        let upd: Seq<(LogType, Seq<char>)> = match snap.proxies {
            Some(p) => if nodes_update(s, p) { seq![(LogType::Info, "更新代理信息"@)] } else { seq![] },
            None => seq![],
        };
        ready + upd
    }
}

fn first_index_of(all: &Vec<String>, x: &String) -> (r: Option<usize>)
    ensures
        r == as_index(first_index(strs(all@), x@)),
{
    let mut i: usize = 0;
    proof {
        assert(strs(all@).skip(0) =~= strs(all@));
    }
    while i < all.len()
        invariant
            i <= all@.len(),
            first_index(strs(all@), x@) == (match first_index(strs(all@).skip(i as int), x@) {
                Some(k) => Some(k + i),
                None => None,
            }),
        decreases all@.len() - i,
    {
        let ghost rest = strs(all@).skip(i as int);
        proof {
            assert(rest[0] == all@[i as int]@);
            assert(rest.drop_first() =~= strs(all@).skip(i as int + 1));
        }
        if str_eq(all[i].as_str(), x.as_str()) {
            return Some(i);
        }
        i = i + 1;
    }
    proof {
        assert(strs(all@).skip(i as int) =~= Seq::<Seq<char>>::empty());
    }
    None
}

fn log_line(t: LogType, msg: &str) -> (r: (LogType, String))
    ensures
        r.0 == t,
        r.1@ == msg@,
{
    (t, to_owned_string(msg))
}

/// Applies a snapshot to the state and returns the log lines to write.
/// Only a failed `/configs` means the API is down; other failures keep what
/// the same tick fetched successfully.
pub fn apply_snapshot(state: &mut MihomoState, snapshot: &ApiSnapshot) -> (logs: Vec<(LogType, String)>)
    ensures
        final(state)@ == snapshot_next(old(state)@, *snapshot),
        logs_view(logs@) == snapshot_logs(old(state)@, *snapshot),
{
    let ghost s0 = state@;
    let mut logs: Vec<(LogType, String)> = Vec::new();
    if snapshot.ready_probe_failed {
        if state.runtime.api_ready {
            state.runtime.api_ready = false;
            let mut m = to_owned_string("mihomo API 连接断开: ");
            match &snapshot.error {
                Some(e) => push_str(&mut m, e.as_str()),
                None => push_str(&mut m, "未知错误"),
            }
            logs.push((LogType::Warn, m));
        }
        proof {
            assert(logs_view(logs@) =~= snapshot_logs(s0, *snapshot));
            assert(state@ == snapshot_next(s0, *snapshot));
        }
        return logs;
    }
    match &snapshot.configs {
        Some(cfg) => {
            if !state.runtime.api_ready {
                state.runtime.api_ready = true;
                logs.push(log_line(LogType::Info, "mihomo 已就绪，开始同步信息"));
            }
            state.runtime.api_ready = true;
            state.runtime.mode = Some(cfg.mode.clone());
            state.runtime.mixed_port = Some(cfg.mixed_port);
            state.runtime.http_port = Some(cfg.port);
            state.runtime.socks_port = Some(cfg.socks_port);
            state.runtime.tun_enabled = match cfg.tun { Some(t) => Some(t.enable), None => None };
            state.runtime.dns_enabled = match cfg.dns { Some(d) => Some(d.enable), None => None };
        }
        None => {}
    }
    match &snapshot.version {
        Some(v) => {
            state.runtime.version = Some(v.clone());
        }
        None => {}
    }
    match snapshot.totals {
        Some((up, down)) => {
            state.runtime.upload_total = up;
            state.runtime.download_total = down;
        }
        None => {}
    }
    let ghost ready_logs = logs_view(logs@);
    proof {
        assert(state.runtime@ == runtime_after(s0.runtime, *snapshot));
        assert(state.nodes == old(state).nodes);
    }
    match &snapshot.proxies {
        Some(proxy) => {
            let new_nodes = merge_nodes(state.nodes.as_slice(), proxy.all.as_slice());
            let active = first_index_of(&proxy.all, &proxy.now);
            let transient = proxy.all.len() == 1 && str_eq(proxy.all[0].as_str(), "DIRECT");
            let changed = node_names_changed(state.nodes.as_slice(), new_nodes.as_slice());
            proof {
                assert(node_names(new_nodes@) =~= nodes_view(new_nodes@).map_values(|n: (Seq<char>, Seq<char>)| n.0));
                assert(node_names(state.nodes@) =~= nodes_view(state.nodes@).map_values(|n: (Seq<char>, Seq<char>)| n.0));
                if proxy.all@.len() == 1 {
                    assert(strs(proxy.all@)[0] == proxy.all@[0]@);
                }
            }
            if !(transient && state.nodes.len() > 0) && (changed || !opt_usize_eq(state.active_node, active)) {
                state.nodes = new_nodes;
                state.active_node = active;
                logs.push(log_line(LogType::Info, "更新代理信息"));
            }
        }
        None => {}
    }
    proof {
        assert(logs_view(logs@) =~= snapshot_logs(s0, *snapshot));
    }
    logs
}

fn opt_usize_eq(a: Option<usize>, b: Option<usize>) -> (r: bool)
    ensures
        r == (a == b),
{
    match (a, b) {
        (Some(x), Some(y)) => x == y,
        (None, None) => true,
        _ => false,
    }
}

/// Whether going offline changes anything: mihomo was seen running, or the
/// runtime still holds API facts.
pub open spec fn offline_changes(s: MihomoStateView) -> bool {
    s.status != MihomoStatus::Stopped || s.runtime.api_ready || s.runtime.version is Some
}

/// The state once the control port is unreachable.
pub open spec fn offline_next(s: MihomoStateView) -> MihomoStateView {
    if offline_changes(s) {
        MihomoStateView { status: MihomoStatus::Stopped, runtime: empty_runtime(), ..s }
    } else {
        s
    }
}

/// The log lines of going offline: one only when mihomo was seen running.
pub open spec fn offline_logs(s: MihomoStateView) -> Seq<(LogType, Seq<char>)> {
    if s.status != MihomoStatus::Stopped {
        seq![(LogType::Info, "mihomo 已停止"@)]
    } else {
        seq![]
    }
}

/// The control port is unreachable: mark mihomo stopped and forget the runtime facts.
pub fn apply_offline(state: &mut MihomoState) -> (logs: Vec<(LogType, String)>)
    ensures
        final(state)@ == offline_next(old(state)@),
        logs_view(logs@) == offline_logs(old(state)@),
{
    let was_running = match state.status {
        MihomoStatus::Stopped => false,
        MihomoStatus::Running(_) => true,
    };
    let mut logs: Vec<(LogType, String)> = Vec::new();
    if !(was_running || state.runtime.api_ready || state.runtime.version.is_some()) {
        proof {
            assert(logs_view(logs@) =~= offline_logs(old(state)@));
        }
        return logs;
    }
    state.status = MihomoStatus::Stopped;
    state.runtime = RuntimeInfo::default();
    if was_running {
        logs.push(log_line(LogType::Info, "mihomo 已停止"));
    }
    proof {
        assert(logs_view(logs@) =~= offline_logs(old(state)@));
    }
    logs
}

/// Going offline twice is the same as once, and the second time logs nothing.
pub proof fn lemma_offline_idempotent(s: MihomoStateView)
    ensures
        offline_next(offline_next(s)) == offline_next(s),
        offline_logs(offline_next(s)) == Seq::<(LogType, Seq<char>)>::empty(),
{
    assert(offline_logs(offline_next(s)) =~= Seq::<(LogType, Seq<char>)>::empty());
}

/// A snapshot with configs logs readiness once: applying a second snapshot
/// that also has configs (and no proxies) logs nothing.
pub proof fn lemma_ready_logs_once(s: MihomoStateView, a: ApiSnapshot, b: ApiSnapshot)
    requires
        !a.ready_probe_failed,
        a.configs is Some,
        !b.ready_probe_failed,
        b.proxies is None,
    ensures
        snapshot_next(s, a).runtime.api_ready,
        snapshot_logs(snapshot_next(s, a), b) == Seq::<(LogType, Seq<char>)>::empty(),
{
    assert(snapshot_logs(snapshot_next(s, a), b) =~= Seq::<(LogType, Seq<char>)>::empty());
}

/// A failed readiness probe logs the disconnect once: a second failure logs nothing.
pub proof fn lemma_disconnect_logs_once(s: MihomoStateView, a: ApiSnapshot, b: ApiSnapshot)
    requires
        a.ready_probe_failed,
        b.ready_probe_failed,
    ensures
        !snapshot_next(s, a).runtime.api_ready,
        snapshot_logs(snapshot_next(s, a), b) == Seq::<(LogType, Seq<char>)>::empty(),
        snapshot_next(snapshot_next(s, a), b) == snapshot_next(s, a),
{
    assert(snapshot_logs(snapshot_next(s, a), b) =~= Seq::<(LogType, Seq<char>)>::empty());
}

/// A snapshot whose readiness probe succeeded never reports a disconnect,
/// whatever other requests failed.
pub proof fn lemma_partial_failure_no_disconnect(s: MihomoStateView, a: ApiSnapshot)
    requires
        !a.ready_probe_failed,
    ensures
        forall|i: int| 0 <= i < snapshot_logs(s, a).len() ==> snapshot_logs(s, a)[i].0 == LogType::Info,
        a.configs is Some ==> snapshot_next(s, a).runtime.api_ready,
{
}

/// A snapshot without proxies leaves the node list and active node alone.
pub proof fn lemma_fast_snapshot_keeps_nodes(s: MihomoStateView, a: ApiSnapshot)
    requires
        a.proxies is None,
    ensures
        snapshot_next(s, a).nodes == s.nodes,
        snapshot_next(s, a).active_node == s.active_node,
{
}

/// A snapshot whose readiness probe answered with configs `c` shows each of
/// `c`'s ports under its own name (mixed, HTTP, SOCKS) and its mode, and the
/// system proxy then points at the mixed port whenever `c` has one.
pub proof fn lemma_snapshot_ports(s: MihomoStateView, a: ApiSnapshot, cfg_mixed: Option<u16>, cfg_port: Option<u16>)
    requires
        !a.ready_probe_failed,
        a.configs is Some,
    ensures
        ({
            let c = a.configs->Some_0;
            let r = snapshot_next(s, a).runtime;
            &&& r.api_ready
            &&& r.mixed_port == Some(c.mixed_port)
            &&& r.http_port == Some(c.port)
            &&& r.socks_port == Some(c.socks_port)
            &&& r.mode == Some(c.mode@)
            &&& c.mixed_port > 0 ==> crate::state::proxy_port(r, cfg_mixed, cfg_port) == Some(c.mixed_port)
        }),
{
}

// ===== tick schedule =====

/// The heartbeat's counters: ticks so far and consecutive failed syncs.
#[derive(Debug, Clone, Copy, PartialEq, Eq, Structural)]
pub struct HeartbeatClock {
    pub tick: u32,
    pub failures: u32,
    /// A full fetch is owed since the port went down.
    pub full_pending: bool,
}

/// What a tick does after the port probe.
#[derive(Debug, Clone, Copy, PartialEq, Eq, Structural)]
pub enum SyncPlan {
    /// Nothing to fetch this tick (backing off).
    Skip,
    /// Fetch the snapshot; `full` adds configs, version and proxies.
    Fetch { full: bool },
}

/// 2^min(failures, 3): the period multiplier while failing.
pub open spec fn backoff(failures: u32) -> u32 {
    if failures >= 3 { 8 } else if failures == 2 { 4 } else if failures == 1 { 2 } else { 1 }
}

/// Backing off stretches the period at most eightfold: from any tick, a
/// fetch is due again within the next eight ticks.
pub proof fn lemma_backoff_at_most_eight(tick: int, failures: u32)
    requires
        tick >= 0,
    ensures
        1 <= backoff(failures) <= 8,
        exists|k: int| 0 <= k < 8 && #[trigger] ((tick + k) % (backoff(failures) as int)) == 0,
{
    let b = backoff(failures) as int;
    let q = tick / b;
    let r = tick % b;
    vstd::arithmetic::div_mod::lemma_fundamental_div_mod(tick, b);
    let k = if r == 0 { 0 } else { b - r };
    let m = if r == 0 { q } else { q + 1 };
    assert(tick + k == m * b) by (nonlinear_arith)
        requires
            tick == b * q + r,
            k == (if r == 0 { 0 } else { b - r }),
            m == (if r == 0 { q } else { q + 1 }),
    ;
    vstd::arithmetic::div_mod::lemma_mod_multiples_basic(m, b);
    assert((tick + k) % b == 0);
}

impl HeartbeatClock {
    pub fn new() -> (c: Self)
        ensures
            c.tick == 0,
            c.failures == 0,
            !c.full_pending,
    {
        HeartbeatClock { tick: 0, failures: 0, full_pending: false }
    }

    /// Starts a tick: the counter moves on, wrapping round.
    pub fn begin_tick(&mut self)
        ensures
            final(self).tick == (if old(self).tick == u32::MAX { 0 } else { (old(self).tick + 1) as u32 }),
            final(self).failures == old(self).failures,
            final(self).full_pending == old(self).full_pending,
    {
        self.tick = if self.tick == u32::MAX { 0 } else { self.tick + 1 };
    }

    /// The port is down: forget failures, and owe a full fetch, so that the
    /// tick on which the port answers again syncs everything at once.
    pub fn went_offline(&mut self)
        ensures
            final(self).tick == old(self).tick,
            final(self).failures == 0,
            final(self).full_pending,
    {
        self.failures = 0;
        self.full_pending = true;
    }

    /// Whether this tick's sync is forced: when `requested`, or when a full
    /// fetch is owed since the port went down. The owed fetch is used up.
    pub fn take_force(&mut self, requested: bool) -> (force: bool)
        ensures
            force == (requested || old(self).full_pending),
            !final(self).full_pending,
            final(self).tick == old(self).tick,
            final(self).failures == old(self).failures,
    {
        let force = requested || self.full_pending;
        self.full_pending = false;
        force
    }

    /// While the API is ready every tick fetches; while it is not, fetches
    /// follow the backoff. A forced sync always fetches. The fetch is full
    /// when forced, when the API is not ready, or on every tenth tick.
    pub fn plan(&self, force: bool, api_ready: bool) -> (p: SyncPlan)
        ensures
            !(force || api_ready || self.tick % backoff(self.failures) == 0) ==> p == SyncPlan::Skip,
            (force || api_ready || self.tick % backoff(self.failures) == 0) ==>
                p == (SyncPlan::Fetch { full: force || !api_ready || self.tick % FULL_EVERY_TICKS == 0 }),
    {
        let shift = if self.failures < MAX_BACKOFF_SHIFT { self.failures } else { MAX_BACKOFF_SHIFT };
        let b: u32 = if shift == 0 { 1 } else if shift == 1 { 2 } else if shift == 2 { 4 } else { 8 };
        if !(force || api_ready || self.tick % b == 0) {
            return SyncPlan::Skip;
        }
        SyncPlan::Fetch { full: force || !api_ready || self.tick % FULL_EVERY_TICKS == 0 }
    }

    /// Records a fetch's outcome; returns whether it is the first failure of a run.
    pub fn finish(&mut self, failed: bool) -> (first_failure: bool)
        ensures
            first_failure == (failed && old(self).failures == 0),
            final(self).tick == old(self).tick,
            final(self).full_pending == old(self).full_pending,
            failed ==> final(self).failures == (if old(self).failures == u32::MAX { u32::MAX } else { (old(self).failures + 1) as u32 }),
            !failed ==> final(self).failures == 0,
    {
        let first = failed && self.failures == 0;
        if failed {
            self.failures = if self.failures == u32::MAX { u32::MAX } else { self.failures + 1 };
        } else {
            self.failures = 0;
        }
        first
    }
}

/// The port answers while the state says stopped: mihomo runs (PID unknown).
pub fn mark_running(state: &mut MihomoState) -> (log: Option<(LogType, String)>)
    ensures
        old(state).status == MihomoStatus::Stopped ==> final(state)@ == (MihomoStateView {
            status: MihomoStatus::Running(0),
            ..old(state)@
        }),
        old(state).status == MihomoStatus::Stopped ==> log is Some && log->Some_0.0 == LogType::Info
            && log->Some_0.1@ == "检测到 mihomo 已在运行"@,
        old(state).status != MihomoStatus::Stopped ==> final(state)@ == old(state)@ && log is None,
{
    match state.status {
        MihomoStatus::Stopped => {
            state.status = MihomoStatus::Running(0);
            Some(log_line(LogType::Info, "检测到 mihomo 已在运行"))
        }
        MihomoStatus::Running(_) => None,
    }
}

/// Follows the system proxy switch; returns whether it changed.
pub fn sync_proxy_running(state: &mut MihomoState, on: bool) -> (changed: bool)
    ensures
        changed == (old(state).proxy_running != on),
        final(state)@ == (MihomoStateView { proxy_running: on, ..old(state)@ }),
{
    let changed = state.proxy_running != on;
    state.proxy_running = on;
    changed
}

/// The warning for a failed request other than the readiness probe, logged
/// once per run of failures.
pub fn request_failure_warning(first_failure: bool, snapshot: &ApiSnapshot) -> (r: Option<String>)
    ensures
        (first_failure && !snapshot.ready_probe_failed && snapshot.error is Some) <==> r is Some,
        r is Some ==> r->Some_0@ == "mihomo API 请求失败: "@ + snapshot.error->Some_0@,
{
    if first_failure && !snapshot.ready_probe_failed {
        match &snapshot.error {
            Some(e) => {
                let mut m = to_owned_string("mihomo API 请求失败: ");
                push_str(&mut m, e.as_str());
                Some(m)
            }
            None => None,
        }
    } else {
        None
    }
}

} // verus!
