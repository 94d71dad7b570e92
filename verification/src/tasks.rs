//! What the user's commands decide and how their results change the state:
//! starting and stopping mihomo, switching nodes, latency tests, reloading,
//! adding subscriptions, and the system proxy and TUN switches.
//!
//! The program runs the requests (processes, HTTP, files) and hands their
//! outcomes to the functions here.
use vstd::prelude::*;
use crate::api::ProxyReport;
use crate::binary::{BinarySource, source_label};
use crate::config::{MihomoConfig, ProviderEntry, provider_entries, entry_keys, numbered, strs, is_default_tun, is_default_dns, Tun, Dns};
use crate::error::Error;
use crate::heartbeat::{first_index, as_index, logs_view};
use crate::operation_log::{LogType, appended};
use crate::process::MihomoStatus;
use crate::state::{AppState, MihomoState, MihomoStateView, Node, nodes_view, node_names};
use crate::strings::{to_owned_string, push_str, push_decimal, decimal, str_eq};

verus! {

/// Version of the embedded mihomo; this build embeds none.
pub const EMBEDDED_VERSION: &'static str = "未嵌入";

fn error_text(e: &Error) -> (r: String)
    ensures
        match *e {
            Error::Api(m) => r@ == m@,
            Error::Process(m) => r@ == m@,
            Error::Config(m) => r@ == m@,
            Error::Io(_) => true,
        },
{
    e.to_string()
}

/// The text an error is logged with, when it carries one.
pub open spec fn error_msg(e: Error, text: Seq<char>) -> bool {
    match e {
        Error::Api(m) => text == m@,
        Error::Process(m) => text == m@,
        Error::Config(m) => text == m@,
        Error::Io(_) => true,
    }
}

// ===== start / stop =====

/// Whether a toggle starts or stops mihomo: a reachable control port means stop.
#[derive(Debug, Clone, Copy, PartialEq, Eq, Structural)]
pub enum ToggleAction {
    Start,
    Stop,
}

pub fn toggle_action(port_up: bool) -> (a: ToggleAction)
    ensures
        a == (if port_up { ToggleAction::Stop } else { ToggleAction::Start }),
{
    if port_up { ToggleAction::Stop } else { ToggleAction::Start }
}

/// Starts a toggle unless one runs already (then warns and refuses).
pub fn begin_toggle(state: &mut AppState) -> (go: bool)
    ensures
        go == !old(state).mihomo.is_toggling,
        go ==> final(state).mihomo@ == (MihomoStateView { is_toggling: true, ..old(state).mihomo@ })
            && final(state).logs.view() == old(state).logs.view(),
        !go ==> final(state).mihomo@ == old(state).mihomo@
            && final(state).logs.view() == appended(old(state).logs.view(), (LogType::Warn, "mihomo 操作进行中，请稍候"@)),
        final(state).config == old(state).config,
{
    if state.mihomo.is_toggling {
        state.logs.add_log(LogType::Warn, to_owned_string("mihomo 操作进行中，请稍候"));
        return false;
    }
    state.mihomo.is_toggling = true;
    true
}

/// The log line of a started mihomo.
pub open spec fn started_msg(pid: u32, source: BinarySource) -> Seq<char> {
    "mihomo 已启动 (PID "@ + decimal(pid as nat) + ", 内嵌 "@ + EMBEDDED_VERSION@ + ": "@
        + (match source {
            BinarySource::TempFile(p) => source_label(source) + ": "@ + p@,
            BinarySource::CacheFile(p) => source_label(source) + ": "@ + p@,
            _ => source_label(source),
        }) + ")"@
}

/// Ends a toggle with its outcome: stopped (`Ok(None)`), started with a PID
/// and executable source, or failed. Returns whether mihomo was started.
pub fn finish_toggle(state: &mut AppState, result: Result<Option<(u32, BinarySource)>, Error>) -> (started: bool)
    ensures
        started == (result matches Ok(Some(_))),
        !final(state).mihomo.is_toggling,
        final(state).config == old(state).config,
        match result {
            Ok(None) => final(state).mihomo@ == (MihomoStateView {
                    is_toggling: false, status: MihomoStatus::Stopped, ..old(state).mihomo@
                })
                && final(state).logs.view() == appended(old(state).logs.view(), (LogType::Info, "已停止mihomo"@)),
            Ok(Some((pid, source))) => final(state).mihomo@ == (MihomoStateView {
                    is_toggling: false, status: MihomoStatus::Running(pid), ..old(state).mihomo@
                })
                && final(state).logs.view() == appended(old(state).logs.view(), (LogType::Info, started_msg(pid, source))),
            Err(e) => final(state).mihomo@ == (MihomoStateView { is_toggling: false, ..old(state).mihomo@ })
                && final(state).logs.view().len() > 0
                && final(state).logs.view().last().0 == LogType::Error
                && error_msg(e, final(state).logs.view().last().1)
                && exists|t: Seq<char>| final(state).logs.view() == appended(old(state).logs.view(), (LogType::Error, t)),
        },
{
    state.mihomo.is_toggling = false;
    match result {
        Ok(None) => {
            state.mihomo.status = MihomoStatus::Stopped;
            state.logs.add_log(LogType::Info, to_owned_string("已停止mihomo"));
            false
        }
        Ok(Some((pid, source))) => {
            state.mihomo.status = MihomoStatus::Running(pid);
            let mut m = to_owned_string("mihomo 已启动 (PID ");
            push_decimal(&mut m, pid as u64);
            push_str(&mut m, ", 内嵌 ");
            push_str(&mut m, EMBEDDED_VERSION);
            push_str(&mut m, ": ");
            let s = source.to_string();
            push_str(&mut m, s.as_str());
            push_str(&mut m, ")");
            state.logs.add_log(LogType::Info, m);
            true
        }
        Err(e) => {
            let t = error_text(&e);
            let ghost tv = t@;
            state.logs.add_log(LogType::Error, t);
            proof {
                lemma_appended_last(old(state).logs.view(), (LogType::Error, tv));
            }
            false
        }
    }
}

pub proof fn lemma_appended_last(s: Seq<(LogType, Seq<char>)>, e: (LogType, Seq<char>))
    ensures
        appended(s, e).len() > 0,
        appended(s, e).last() == e,
{
}

// ===== switching nodes =====

/// Starts switching to node `index`: refused (with a warning) while another
/// switch runs, ignored for a missing node; otherwise the node is marked
/// active at once. Returns the node's name and the previously active node.
pub fn begin_switch_node(state: &mut AppState, index: usize) -> (r: Option<(String, Option<usize>)>)
    ensures
        final(state).config == old(state).config,
        old(state).mihomo.is_switching_node ==> r is None && final(state).mihomo@ == old(state).mihomo@
            && final(state).logs.view() == appended(old(state).logs.view(), (LogType::Warn, "正在切换节点，请稍候"@)),
        !old(state).mihomo.is_switching_node && index >= old(state).mihomo.nodes@.len() ==>
            r is None && final(state).mihomo@ == old(state).mihomo@ && final(state).logs.view() == old(state).logs.view(),
        !old(state).mihomo.is_switching_node && index < old(state).mihomo.nodes@.len() ==> {
            &&& r is Some
            &&& r->Some_0.0@ == old(state).mihomo.nodes@[index as int].name@
            &&& r->Some_0.1 == old(state).mihomo.active_node
            &&& final(state).mihomo@ == (MihomoStateView {
                is_switching_node: true, active_node: Some(index), ..old(state).mihomo@
            })
            &&& final(state).logs.view() == old(state).logs.view()
        },
{
    if state.mihomo.is_switching_node {
        state.logs.add_log(LogType::Warn, to_owned_string("正在切换节点，请稍候"));
        return None;
    }
    if index >= state.mihomo.nodes.len() {
        return None;
    }
    let name = state.mihomo.nodes[index].name.clone();
    let prev = state.mihomo.active_node;
    state.mihomo.is_switching_node = true;
    state.mihomo.active_node = Some(index);
    Some((name, prev))
}

/// Ends a node switch: success logs the node; failure rolls the active mark
/// back (if it still points at the node) and logs the error.
pub fn finish_switch_node(state: &mut AppState, index: usize, name: &str, prev: Option<usize>, result: Result<(), Error>)
    ensures
        final(state).config == old(state).config,
        !final(state).mihomo.is_switching_node,
        result is Ok ==> final(state).mihomo@ == (MihomoStateView { is_switching_node: false, ..old(state).mihomo@ })
            && final(state).logs.view() == appended(old(state).logs.view(), (LogType::Info, "切换节点："@ + name@)),
        result is Err ==> final(state).mihomo@ == (MihomoStateView {
                is_switching_node: false,
                active_node: if old(state).mihomo.active_node == Some(index) { prev } else { old(state).mihomo.active_node },
                ..old(state).mihomo@
            })
            && final(state).logs.view().last().0 == LogType::Error
            && error_msg(result->Err_0, final(state).logs.view().last().1),
{
    state.mihomo.is_switching_node = false;
    match result {
        Ok(()) => {
            let mut m = to_owned_string("切换节点：");
            push_str(&mut m, name);
            state.logs.add_log(LogType::Info, m);
        }
        Err(e) => {
            let was = match state.mihomo.active_node { Some(a) => a == index, None => false };
            if was {
                state.mihomo.active_node = prev;
            }
            let t = error_text(&e);
            let ghost tv = t@;
            state.logs.add_log(LogType::Error, t);
            proof {
                lemma_appended_last(old(state).logs.view(), (LogType::Error, tv));
            }
        }
    }
}

// ===== latency tests =====

pub open spec fn all_speeds(nodes: Seq<(Seq<char>, Seq<char>)>, speed: Seq<char>) -> Seq<(Seq<char>, Seq<char>)> {
    nodes.map_values(|n: (Seq<char>, Seq<char>)| (n.0, speed))
}

/// Starts a latency test unless one runs (then warns); every node shows `wait`.
pub fn begin_delay_test(state: &mut AppState) -> (go: bool)
    ensures
        final(state).config == old(state).config,
        go == !old(state).mihomo.is_test_delay,
        !go ==> final(state).mihomo@ == old(state).mihomo@
            && final(state).logs.view() == appended(old(state).logs.view(), (LogType::Warn, "已经在测速了!"@)),
        go ==> final(state).mihomo@ == (MihomoStateView {
                is_test_delay: true, nodes: all_speeds(old(state).mihomo@.nodes, "wait"@), ..old(state).mihomo@
            })
            && final(state).logs.view() == old(state).logs.view(),
{
    if state.mihomo.is_test_delay {
        state.logs.add_log(LogType::Warn, to_owned_string("已经在测速了!"));
        return false;
    }
    state.mihomo.is_test_delay = true;
    let ghost before = nodes_view(state.mihomo.nodes@);
    let mut nodes = Vec::new();
    std::mem::swap(&mut nodes, &mut state.mihomo.nodes);
    let mut out: Vec<Node> = Vec::new();
    let mut i: usize = 0;
    while i < nodes.len()
        invariant
            i <= nodes@.len(),
            nodes_view(nodes@) == before,
            nodes_view(out@) == all_speeds(before.take(i as int), "wait"@),
        decreases nodes@.len() - i,
    {
        let ghost o = nodes_view(out@);
        out.push(Node { name: nodes[i].name.clone(), speed: to_owned_string("wait") });
        proof {
            assert(nodes_view(out@) =~= o.push((before[i as int].0, "wait"@)));
            assert(all_speeds(before.take(i as int + 1), "wait"@) =~= all_speeds(before.take(i as int), "wait"@).push((before[i as int].0, "wait"@)));
        }
        i = i + 1;
    }
    proof {
        assert(before.take(before.len() as int) =~= before);
    }
    state.mihomo.nodes = out;
    true
}

/// The delay reported for `name` (the last one given), if any.
pub open spec fn delay_of(delays: Seq<(Seq<char>, u32)>, name: Seq<char>) -> Option<u32>
    decreases delays.len(),
{
    if delays.len() == 0 {
        None
    } else if delays.last().0 == name {
        Some(delays.last().1)
    } else {
        delay_of(delays.drop_last(), name)
    }
}

/// A node's speed text after a test: `{d}ms`, or `-` when it had no result.
pub open spec fn speed_text(d: Option<u32>) -> Seq<char> {
    match d {
        Some(d) => decimal(d as nat) + "ms"@,
        None => "-"@,
    }
}

/// After a successful test, a node reported with delay `d` keeps its name and
/// shows the decimal digits of `d` followed by `ms`: the digits read back as `d`.
pub proof fn lemma_tested_speed_reads_back(
    nodes: Seq<(Seq<char>, Seq<char>)>,
    delays: Seq<(Seq<char>, u32)>,
    i: int,
    d: u32,
)
    requires
        0 <= i < nodes.len(),
        delay_of(delays, nodes[i].0) == Some(d),
    ensures
        tested(nodes, delays).len() == nodes.len(),
        tested(nodes, delays)[i].0 == nodes[i].0,
        ({
            let t = tested(nodes, delays)[i].1;
            &&& t.len() >= 3
            &&& t.skip(t.len() - 2) == "ms"@
            &&& crate::strings::parse_uint(t.take(t.len() - 2), 10) == Some(d as nat)
        }),
{
    reveal_strlit("ms");
    let t = decimal(d as nat) + "ms"@;
    crate::strings::lemma_parse_decimal(d as nat);
    crate::strings::lemma_decimal_digits(d as nat);
    assert(tested(nodes, delays)[i].1 == t);
    assert(t.take(t.len() - 2) =~= decimal(d as nat));
    assert(t.skip(t.len() - 2) =~= "ms"@);
}

/// The delay reported for a name is one that the reply gave for it, and a
/// name the reply gave always has one.
pub proof fn lemma_delay_of_reported(delays: Seq<(Seq<char>, u32)>, j: int)
    requires
        0 <= j < delays.len(),
    ensures
        delay_of(delays, delays[j].0) is Some,
        exists|k: int| 0 <= k < delays.len() && #[trigger] delays[k].0 == delays[j].0
            && delay_of(delays, delays[j].0) == Some(delays[k].1),
    decreases delays.len(),
{
    let n = delays[j].0;
    if delays.last().0 == n {
        assert(delays[delays.len() - 1].0 == n);
    } else {
        assert(j < delays.len() - 1);
        assert(delays.drop_last()[j] == delays[j]);
        lemma_delay_of_reported(delays.drop_last(), j);
        let k = choose|k: int| 0 <= k < delays.drop_last().len() && #[trigger] delays.drop_last()[k].0 == n
            && delay_of(delays.drop_last(), n) == Some(delays.drop_last()[k].1);
        assert(delays[k] == delays.drop_last()[k]);
    }
}

pub open spec fn delays_view(d: Seq<(String, u32)>) -> Seq<(Seq<char>, u32)> {
    d.map_values(|p: (String, u32)| (p.0@, p.1))
}

pub open spec fn tested(nodes: Seq<(Seq<char>, Seq<char>)>, delays: Seq<(Seq<char>, u32)>) -> Seq<(Seq<char>, Seq<char>)> {
    nodes.map_values(|n: (Seq<char>, Seq<char>)| (n.0, speed_text(delay_of(delays, n.0))))
}

pub open spec fn cleared_wait(nodes: Seq<(Seq<char>, Seq<char>)>) -> Seq<(Seq<char>, Seq<char>)> {
    nodes.map_values(|n: (Seq<char>, Seq<char>)| (n.0, if n.1 == "wait"@ { "-"@ } else { n.1 }))
}

fn lookup_delay(delays: &Vec<(String, u32)>, name: &str) -> (r: Option<u32>)
    ensures
        r == delay_of(delays_view(delays@), name@),
{
    let mut i = delays.len();
    proof {
        assert(delays_view(delays@).take(i as int) =~= delays_view(delays@));
    }
    while i > 0
        invariant
            i <= delays@.len(),
            delay_of(delays_view(delays@), name@) == delay_of(delays_view(delays@).take(i as int), name@),
        decreases i,
    {
        proof {
            assert(delays_view(delays@).take(i as int).drop_last() =~= delays_view(delays@).take(i - 1));
        }
        if str_eq(delays[i - 1].0.as_str(), name) {
            return Some(delays[i - 1].1);
        }
        i = i - 1;
    }
    None
}

/// Ends a latency test: each node shows its delay in ms, or `-`; on failure
/// the nodes still showing `wait` go back to `-`, and the error is logged.
pub fn finish_delay_test(state: &mut AppState, result: Result<Vec<(String, u32)>, Error>)
    ensures
        final(state).config == old(state).config,
        match result {
            Ok(d) => final(state).mihomo@ == (MihomoStateView {
                    is_test_delay: false,
                    nodes: tested(old(state).mihomo@.nodes, delays_view(d@)),
                    ..old(state).mihomo@
                })
                && final(state).logs.view() == appended(old(state).logs.view(), (LogType::Info, "测速完成"@)),
            Err(e) => final(state).mihomo@ == (MihomoStateView {
                    is_test_delay: false,
                    nodes: cleared_wait(old(state).mihomo@.nodes),
                    ..old(state).mihomo@
                })
                && final(state).logs.view().last().0 == LogType::Error
                && error_msg(e, final(state).logs.view().last().1),
        },
{
    state.mihomo.is_test_delay = false;
    let ghost before = nodes_view(state.mihomo.nodes@);
    let mut nodes = Vec::new();
    std::mem::swap(&mut nodes, &mut state.mihomo.nodes);
    let mut out: Vec<Node> = Vec::new();
    let mut i: usize = 0;
    match result {
        Ok(delays) => {
            while i < nodes.len()
                invariant
                    i <= nodes@.len(),
                    nodes_view(nodes@) == before,
                    nodes_view(out@) == tested(before.take(i as int), delays_view(delays@)),
                decreases nodes@.len() - i,
            {
                let ghost o = nodes_view(out@);
                let speed = match lookup_delay(&delays, nodes[i].name.as_str()) {
                    Some(d) => {
                        let mut s = String::new();
                        push_decimal(&mut s, d as u64);
                        push_str(&mut s, "ms");
                        proof {
                            assert(s@ =~= decimal(d as nat) + "ms"@);
                        }
                        s
                    }
                    None => to_owned_string("-"),
                };
                out.push(Node { name: nodes[i].name.clone(), speed });
                proof {
                    let t = speed_text(delay_of(delays_view(delays@), before[i as int].0));
                    assert(nodes_view(out@) =~= o.push((before[i as int].0, t)));
                    assert(tested(before.take(i as int + 1), delays_view(delays@))
                        =~= tested(before.take(i as int), delays_view(delays@)).push((before[i as int].0, t)));
                }
                i = i + 1;
            }
            proof {
                assert(before.take(before.len() as int) =~= before);
            }
            state.mihomo.nodes = out;
            state.logs.add_log(LogType::Info, to_owned_string("测速完成"));
        }
        Err(e) => {
            while i < nodes.len()
                invariant
                    i <= nodes@.len(),
                    nodes_view(nodes@) == before,
                    nodes_view(out@) == cleared_wait(before.take(i as int)),
                decreases nodes@.len() - i,
            {
                let ghost o = nodes_view(out@);
                let speed = if str_eq(nodes[i].speed.as_str(), "wait") {
                    to_owned_string("-")
                } else {
                    nodes[i].speed.clone()
                };
                out.push(Node { name: nodes[i].name.clone(), speed });
                proof {
                    let n = before[i as int];
                    let t = if n.1 == "wait"@ { "-"@ } else { n.1 };
                    assert(nodes_view(out@) =~= o.push((n.0, t)));
                    assert(cleared_wait(before.take(i as int + 1)) =~= cleared_wait(before.take(i as int)).push((n.0, t)));
                }
                i = i + 1;
            }
            proof {
                assert(before.take(before.len() as int) =~= before);
            }
            state.mihomo.nodes = out;
            let t = error_text(&e);
            let ghost tv = t@;
            state.logs.add_log(LogType::Error, t);
            proof {
                lemma_appended_last(old(state).logs.view(), (LogType::Error, tv));
            }
        }
    }
}

// ===== reload and subscriptions =====

/// The log line of a configuration reload.
pub fn reload_result_log(result: &Result<(), Error>) -> (r: (LogType, String))
    ensures
        result is Ok ==> r.0 == LogType::Info && r.1@ == "重置配置成功"@,
        result is Err ==> r.0 == LogType::Error && error_msg(result->Err_0, r.1@),
{
    match result {
        Ok(()) => (LogType::Info, to_owned_string("重置配置成功")),
        Err(e) => (LogType::Error, error_text(e)),
    }
}

/// Number of subscriptions in the configuration.
pub fn provider_count(config: &MihomoConfig) -> (n: usize)
    ensures
        n == (match config.proxy_providers {
            Some(p) => provider_entries(p).len(),
            None => 0,
        }),
{
    config.provider_count()
}

/// Default name of the `n`-th subscription: `订阅{n}`.
pub fn sub_name(n: usize) -> (r: String)
    ensures
        r@ == "订阅"@ + decimal(n as nat),
{
    let mut s = to_owned_string("订阅");
    push_decimal(&mut s, n as u64);
    s
}

/// Subscriptions of an optional map, in order (none without a map).
pub open spec fn entries_of(p: Option<indexmap::IndexMap<String, crate::config::ProxyProvider>>) -> Seq<ProviderEntry> {
    match p {
        Some(p) => provider_entries(p),
        None => Seq::<ProviderEntry>::empty(),
    }
}

/// The entry of a new subscription: an `http` provider updated hourly, fetched
/// with the subscription user agent, and with no other fields.
pub open spec fn new_subscription(name: Seq<char>, url: Seq<char>) -> ProviderEntry {
    (name, url, "http"@, 3600u32, Some(crate::config::subscription_header()), Seq::<Seq<char>>::empty())
}

/// The default name of the next subscription: `订阅{count + 1}`.
pub open spec fn default_sub_name(c: MihomoConfig) -> Seq<char> {
    "订阅"@ + decimal((entries_of(c.proxy_providers).len() + 1) as nat)
}

/// Adds subscription `url` named after the number of subscriptions plus one
/// (made unique if taken); returns the name used.
pub fn insert_subscription(state: &mut AppState, url: String) -> (name: String)
    requires
        (match old(state).config.proxy_providers {
            Some(p) => provider_entries(p).len(),
            None => 0,
        }) < usize::MAX,
    ensures
        final(state).config.proxy_providers is Some,
        provider_entries(final(state).config.proxy_providers->Some_0)
            == entries_of(old(state).config.proxy_providers).push(new_subscription(name@, url@)),
        crate::config::unique_name(entry_keys(entries_of(old(state).config.proxy_providers)),
            default_sub_name(old(state).config), name@),
        !entry_keys(entries_of(old(state).config.proxy_providers)).contains(default_sub_name(old(state).config))
            ==> name@ == default_sub_name(old(state).config),
        entry_keys(entries_of(old(state).config.proxy_providers)).contains(default_sub_name(old(state).config))
            ==> exists|i: nat| i >= 1 && name@ == #[trigger] numbered(default_sub_name(old(state).config), i)
                && !entry_keys(entries_of(old(state).config.proxy_providers)).contains(name@),
        final(state).config == (MihomoConfig { proxy_providers: final(state).config.proxy_providers, ..old(state).config }),
        final(state).mihomo == old(state).mihomo,
        final(state).logs == old(state).logs,
{
    let n = provider_count(&state.config);
    let base = sub_name(n + 1);
    let ghost b = base@;
    let ghost u = url@;
    let name = state.config.insert_sub(url, base);
    proof {
        let before = match old(state).config.proxy_providers {
            Some(p) => provider_entries(p),
            None => Seq::<ProviderEntry>::empty(),
        };
        assert(b == "订阅"@ + decimal((before.len() + 1) as nat));
        if entry_keys(before).contains(b) {
            let i = choose|i: nat| {
                &&& i >= 1
                &&& name@ == #[trigger] numbered(b, i)
                &&& !entry_keys(before).contains(name@)
                &&& forall|j: nat| 1 <= j < i ==> entry_keys(before).contains(#[trigger] numbered(b, j))
            };
            assert(i >= 1 && name@ == numbered(b, i) && !entry_keys(before).contains(name@));
            let base = "订阅"@ + decimal((before.len() + 1) as nat);
            assert(base == b);
            assert(exists|k: nat| k >= 1 && name@ == #[trigger] numbered(base, k)
                && !entry_keys(before).contains(name@));
        } else {
            assert(name@ == b);
        }
        assert(provider_entries(state.config.proxy_providers->Some_0) == before.push(new_subscription(name@, u)));
        let base = "订阅"@ + decimal((before.len() + 1) as nat);
        assert(!entry_keys(before).contains(base) ==> name@ == base);
        assert(entry_keys(before).contains(base) ==> exists|i: nat| i >= 1 && name@ == #[trigger] numbered(base, i)
                && !entry_keys(before).contains(name@));
    }
    name
}

/// The log line after a new subscription was saved, or the save error.
pub fn insert_result_log(name: &str, saved: &Result<(), Error>) -> (r: (LogType, String))
    ensures
        saved is Ok ==> r.0 == LogType::Info && r.1@ == "插入订阅："@ + name@,
        saved is Err ==> r.0 == LogType::Error && error_msg(saved->Err_0, r.1@),
{
    match saved {
        Ok(()) => {
            let mut m = to_owned_string("插入订阅：");
            push_str(&mut m, name);
            (LogType::Info, m)
        }
        Err(e) => (LogType::Error, error_text(e)),
    }
}

// ===== system proxy and TUN =====

/// What toggling the system proxy does.
#[derive(Debug, PartialEq, Eq)]
pub enum ProxyPlan {
    /// It is on: switch it off.
    Disable,
    /// It is off: point it at this address.
    Enable(String),
    /// It is off and no proxy port is known.
    NoPort,
}

/// Toggling the system proxy: off when on; otherwise on at the state's proxy address.
pub fn proxy_plan(state: &AppState, is_enabled: bool) -> (p: ProxyPlan)
    ensures
        is_enabled ==> p == ProxyPlan::Disable,
        !is_enabled ==> match crate::state::proxy_port(state.mihomo.runtime@, state.config.mixed_port, state.config.port) {
            Some(port) => p matches ProxyPlan::Enable(a) && a@ == "127.0.0.1:"@ + decimal(port as nat),
            None => p == ProxyPlan::NoPort,
        },
{
    if is_enabled {
        return ProxyPlan::Disable;
    }
    match state.proxy_addr() {
        Some(a) => ProxyPlan::Enable(a),
        None => ProxyPlan::NoPort,
    }
}

/// The log line after toggling the system proxy, and the new `proxy_running`
/// when the system call succeeded.
pub fn finish_proxy_toggle(state: &mut AppState, plan: &ProxyPlan, result: Result<(), Error>)
    ensures
        final(state).config == old(state).config,
        (*plan == ProxyPlan::NoPort) ==> final(state).mihomo@ == old(state).mihomo@
            && final(state).logs.view() == appended(old(state).logs.view(), (LogType::Error, "未配置代理端口，无法开启系统代理"@)),
        (*plan == ProxyPlan::Disable && result is Ok) ==>
            final(state).mihomo@ == (MihomoStateView { proxy_running: false, ..old(state).mihomo@ })
            && final(state).logs.view() == appended(old(state).logs.view(), (LogType::Info, "关闭系统代理"@)),
        (plan matches ProxyPlan::Enable(a) && result is Ok) ==>
            final(state).mihomo@ == (MihomoStateView { proxy_running: true, ..old(state).mihomo@ })
            && final(state).logs.view() == appended(old(state).logs.view(),
                (LogType::Info, "开启系统代理 ("@ + plan->Enable_0@ + ")"@)),
        (*plan != ProxyPlan::NoPort && result is Err) ==> final(state).mihomo@ == old(state).mihomo@
            && final(state).logs.view().last().0 == LogType::Error
            && error_msg(result->Err_0, final(state).logs.view().last().1),
{
    match plan {
        ProxyPlan::NoPort => {
            state.logs.add_log(LogType::Error, to_owned_string("未配置代理端口，无法开启系统代理"));
        }
        ProxyPlan::Disable => {
            match result {
                Ok(()) => {
                    state.mihomo.proxy_running = false;
                    state.logs.add_log(LogType::Info, to_owned_string("关闭系统代理"));
                }
                Err(e) => {
                    let t = error_text(&e);
                    let ghost tv = t@;
                    state.logs.add_log(LogType::Error, t);
                    proof { lemma_appended_last(old(state).logs.view(), (LogType::Error, tv)); }
                }
            }
        }
        ProxyPlan::Enable(a) => {
            match result {
                Ok(()) => {
                    state.mihomo.proxy_running = true;
                    let mut m = to_owned_string("开启系统代理 (");
                    push_str(&mut m, a.as_str());
                    push_str(&mut m, ")");
                    state.logs.add_log(LogType::Info, m);
                }
                Err(e) => {
                    let t = error_text(&e);
                    let ghost tv = t@;
                    state.logs.add_log(LogType::Error, t);
                    proof { lemma_appended_last(old(state).logs.view(), (LogType::Error, tv)); }
                }
            }
        }
    }
}

/// `T`: flips TUN in the configuration (turning DNS on with it) and logs it.
/// Returns the new setting; saving and reloading follow.
pub fn toggle_tun(state: &mut AppState) -> (on: bool)
    ensures
        on == !(old(state).config.tun is Some && old(state).config.tun->Some_0.enable),
        final(state).config.tun is Some ==> final(state).config.tun->Some_0.enable == on,
        on ==> final(state).config.tun is Some && final(state).config.dns is Some
            && final(state).config.dns->Some_0.enable,
        crate::config::tun_switched(old(state).config.tun, old(state).config.dns,
            final(state).config.tun, final(state).config.dns, on),
        final(state).config == (MihomoConfig { tun: final(state).config.tun, dns: final(state).config.dns, ..old(state).config }),
        final(state).mihomo == old(state).mihomo,
        final(state).logs.view() == appended(old(state).logs.view(),
            (LogType::Info, if on { "TUN已开启"@ } else { "TUN已关闭"@ })),
{
    let on = !state.tun_enabled();
    state.config.set_tun_enabled(on);
    let msg = if on { "TUN已开启" } else { "TUN已关闭" };
    state.logs.add_log(LogType::Info, to_owned_string(msg));
    on
}

/// Points the proxy group at subscription `name`; logs the switch, or the
/// error for an unknown name. Returns whether to save and reload.
pub fn switch_provider(state: &mut AppState, name: &str) -> (ok: bool)
    ensures
        ok == (old(state).config.proxy_providers is Some
            && crate::config::provider_names(old(state).config.proxy_providers->Some_0).contains(name@)),
        !ok ==> final(state).config == old(state).config
            && final(state).logs.view() == appended(old(state).logs.view(),
                (LogType::Error, "订阅 '"@ + name@ + "' 不存在"@)),
        ok ==> crate::config::with_first_use(old(state).config.proxy_groups@, seq![name@], final(state).config.proxy_groups@)
            && final(state).config == (MihomoConfig { proxy_groups: final(state).config.proxy_groups, ..old(state).config })
            && final(state).logs.view() == appended(old(state).logs.view(), (LogType::Info, "正在切换订阅..."@)),
        final(state).mihomo == old(state).mihomo,
{
    match state.config.prepare_switch_provider(name) {
        Ok(()) => {
            state.logs.add_log(LogType::Info, to_owned_string("正在切换订阅..."));
            true
        }
        Err(e) => {
            let t = error_text(&e);
            state.logs.add_log(LogType::Error, t);
            false
        }
    }
}

// ===== configuration edits =====

/// Every edit the settings page can make to the configuration.
#[derive(Debug, Clone, PartialEq, Eq)]
pub enum ConfigChange {
    Mode(String),
    LogLevel(String),
    AllowLan(bool),
    UnifiedDelay(bool),
    Tun(bool),
    Dns(bool),
    Port(u16),
    SocksPort(u16),
    KeepAlive(u32),
    SetRule { index: usize, text: String },
    AddRule(String),
    RemoveRule(usize),
}

/// Every side effect the UI can ask for.
#[derive(Debug, Clone, PartialEq, Eq)]
pub enum Effect {
    Nothing,
    SyncNow,
    ToggleMihomo,
    ToggleSystemProxy,
    ToggleTun,
    DelayTest,
    SwitchNode(usize),
    SwitchProvider(String),
    DeleteProvider(String),
    InsertSub(String),
    Config(ConfigChange),
    SaveAndReload,
}

/// Applies one configuration edit in memory; rule edits outside the list are ignored.
pub fn apply_config(config: &mut MihomoConfig, change: ConfigChange)
    ensures
        match change {
            ConfigChange::Mode(v) => *final(config) == (MihomoConfig { mode: v, ..*old(config) }),
            ConfigChange::LogLevel(v) => *final(config) == (MihomoConfig { log_level: v, ..*old(config) }),
            ConfigChange::AllowLan(on) => *final(config) == (MihomoConfig { allow_lan: on, ..*old(config) }),
            ConfigChange::UnifiedDelay(on) => *final(config) == (MihomoConfig { unified_delay: on, ..*old(config) }),
            ConfigChange::Tun(on) => {
                &&& on ==> final(config).tun is Some && final(config).tun->Some_0.enable
                    && final(config).dns is Some && final(config).dns->Some_0.enable
                &&& !on ==> final(config).dns == old(config).dns
                    && (final(config).tun is Some ==> !final(config).tun->Some_0.enable)
                    && (final(config).tun is Some == old(config).tun is Some)
                &&& *final(config) == (MihomoConfig { tun: final(config).tun, dns: final(config).dns, ..*old(config) })
            },
            ConfigChange::Dns(on) => {
                &&& final(config).dns is Some ==> final(config).dns->Some_0.enable == on
                &&& on ==> final(config).dns is Some
                &&& *final(config) == (MihomoConfig { dns: final(config).dns, ..*old(config) })
            },
            ConfigChange::Port(v) => *final(config) == (MihomoConfig { port: Some(v), ..*old(config) }),
            ConfigChange::SocksPort(v) => *final(config) == (MihomoConfig { socks_port: Some(v), ..*old(config) }),
            ConfigChange::KeepAlive(v) => *final(config) == (MihomoConfig { keep_alive_interval: v, ..*old(config) }),
            ConfigChange::SetRule { index, text } => if index < old(config).rules@.len() {
                final(config).rules@ == old(config).rules@.update(index as int, text)
                    && *final(config) == (MihomoConfig { rules: final(config).rules, ..*old(config) })
            } else {
                *final(config) == *old(config)
            },
            ConfigChange::AddRule(text) => final(config).rules@ == old(config).rules@.push(text)
                && *final(config) == (MihomoConfig { rules: final(config).rules, ..*old(config) }),
            ConfigChange::RemoveRule(index) => if index < old(config).rules@.len() {
                final(config).rules@ == old(config).rules@.remove(index as int)
                    && *final(config) == (MihomoConfig { rules: final(config).rules, ..*old(config) })
            } else {
                *final(config) == *old(config)
            },
        },
{
    match change {
        ConfigChange::Mode(v) => { config.mode = v; }
        ConfigChange::LogLevel(v) => { config.log_level = v; }
        ConfigChange::AllowLan(on) => { config.allow_lan = on; }
        ConfigChange::UnifiedDelay(on) => { config.unified_delay = on; }
        ConfigChange::Tun(on) => { config.set_tun_enabled(on); }
        ConfigChange::Dns(on) => { config.set_dns_enabled(on); }
        ConfigChange::Port(v) => { config.port = Some(v); }
        ConfigChange::SocksPort(v) => { config.socks_port = Some(v); }
        ConfigChange::KeepAlive(v) => { config.keep_alive_interval = v; }
        ConfigChange::SetRule { index, text } => {
            if index < config.rules.len() {
                config.rules.set(index, text);
            }
        }
        ConfigChange::AddRule(text) => { config.rules.push(text); }
        ConfigChange::RemoveRule(index) => {
            if index < config.rules.len() {
                config.rules.remove(index);
            }
        }
    }
}

// ===== results of background tasks =====

/// The outcome of a background task, handed back to the state.
#[derive(Debug)]
pub enum TaskResult {
    /// Whether mihomo's port came up after starting it.
    MihomoReady { ready: bool },
    NodesFetched { result: Result<ProxyReport, Error> },
    /// Delays by node name, in the order the reply gave them.
    DelaysFetched { result: Result<Vec<(String, u32)>, Error> },
    NodeSwitched { name: String, result: Result<(), Error> },
    ConfigReloaded { result: Result<(), Error> },
    ProviderNameFetched { url: String, result: Result<String, Error> },
}

/// What the program does next after a task result.
#[derive(Debug, PartialEq, Eq)]
pub enum FollowUp {
    Nothing,
    /// Fetch the node list.
    LoadNodes,
    /// Save the configuration, log the new subscription by this name, reload.
    SaveNewSubscription(String),
}

/// The node list of a proxies reply: every name with no measurement.
pub open spec fn fresh_nodes(all: Seq<Seq<char>>) -> Seq<(Seq<char>, Seq<char>)> {
    all.map_values(|n: Seq<char>| (n, "-"@))
}

/// Position of the last `x` in `s`.
pub open spec fn last_index(s: Seq<Seq<char>>, x: Seq<char>) -> Option<int>
    decreases s.len(),
{
    if s.len() == 0 {
        None
    } else if s.last() == x {
        Some(s.len() - 1)
    } else {
        last_index(s.drop_last(), x)
    }
}

pub open spec fn with_speeds(nodes: Seq<(Seq<char>, Seq<char>)>, delays: Seq<(Seq<char>, u32)>) -> Seq<(Seq<char>, Seq<char>)> {
    tested(nodes, delays)
}

/// Applies a task result to the state and the node cursor `select`; returns
/// what to do next.
pub fn apply_task_result(state: &mut AppState, select: &mut usize, result: TaskResult) -> (next: FollowUp)
    requires
        old(state).config.provider_count_view() < usize::MAX,
    ensures
        match result {
            TaskResult::MihomoReady { ready } => {
                &&& final(state).mihomo@ == old(state).mihomo@
                &&& final(state).config == old(state).config
                &&& *final(select) == *old(select)
                &&& ready ==> next == FollowUp::LoadNodes && final(state).logs.view()
                    == appended(old(state).logs.view(), (LogType::Info, "mihomo 已就绪，正在拉取节点"@))
                &&& !ready ==> next == FollowUp::Nothing && final(state).logs.view()
                    == appended(old(state).logs.view(), (LogType::Warn,
                        "进程已启动但端口未就绪（启动可能较慢或失败），可按 s 停止后重试"@))
            },
            TaskResult::NodesFetched { result } => {
                &&& next == FollowUp::Nothing
                &&& final(state).config == old(state).config
                &&& match result {
                    Ok(p) => {
                        let all = crate::heartbeat::strs(p.all@);
                        &&& final(state).mihomo@ == (MihomoStateView {
                            nodes: fresh_nodes(all),
                            active_node: as_index(last_index(all, p.now@)),
                            ..old(state).mihomo@
                        })
                        &&& *final(select) == (match last_index(all, p.now@) { Some(i) => i as usize, None => 0 })
                        &&& final(state).logs.view() == appended(old(state).logs.view(), (LogType::Info, "更新代理信息"@))
                    },
                    Err(e) => final(state).mihomo@ == old(state).mihomo@ && *final(select) == *old(select)
                        && final(state).logs.view().last().0 == LogType::Error
                        && error_msg(e, final(state).logs.view().last().1),
                }
            },
            TaskResult::DelaysFetched { result } => {
                &&& next == FollowUp::Nothing
                &&& final(state).config == old(state).config
                &&& *final(select) == *old(select)
                &&& match result {
                    Ok(d) => final(state).mihomo@ == (MihomoStateView {
                            is_test_delay: false,
                            nodes: with_speeds(old(state).mihomo@.nodes, delays_view(d@)),
                            ..old(state).mihomo@
                        })
                        && final(state).logs.view() == appended(old(state).logs.view(), (LogType::Info, "测速完成"@)),
                    Err(e) => final(state).mihomo@ == (MihomoStateView { is_test_delay: false, ..old(state).mihomo@ })
                        && final(state).logs.view().last().0 == LogType::Error
                        && error_msg(e, final(state).logs.view().last().1),
                }
            },
            TaskResult::NodeSwitched { name, result } => {
                &&& next == FollowUp::Nothing
                &&& final(state).mihomo@ == old(state).mihomo@
                &&& final(state).config == old(state).config
                &&& *final(select) == *old(select)
                &&& result is Ok ==> final(state).logs.view()
                    == appended(old(state).logs.view(), (LogType::Info, "切换节点："@ + name@))
                &&& result is Err ==> final(state).logs.view().last().0 == LogType::Error
                    && error_msg(result->Err_0, final(state).logs.view().last().1)
            },
            TaskResult::ConfigReloaded { result } => {
                &&& final(state).mihomo@ == old(state).mihomo@
                &&& final(state).config == old(state).config
                &&& *final(select) == *old(select)
                &&& result is Ok ==> next == FollowUp::LoadNodes && final(state).logs.view()
                    == appended(old(state).logs.view(), (LogType::Info, "重置配置成功"@))
                &&& result is Err ==> next == FollowUp::Nothing
                    && final(state).logs.view().last().0 == LogType::Error
                    && error_msg(result->Err_0, final(state).logs.view().last().1)
            },
            TaskResult::ProviderNameFetched { url, result } => {
                &&& final(state).mihomo@ == old(state).mihomo@
                &&& *final(select) == *old(select)
                &&& next matches FollowUp::SaveNewSubscription(n)
                &&& final(state).config.proxy_providers is Some
                &&& provider_entries(final(state).config.proxy_providers->Some_0)
                    == entries_of(old(state).config.proxy_providers).push(new_subscription(next->SaveNewSubscription_0@, url@))
                &&& final(state).config == (MihomoConfig {
                    proxy_providers: final(state).config.proxy_providers, ..old(state).config
                })
                &&& crate::config::unique_name(entry_keys(entries_of(old(state).config.proxy_providers)),
                    match result { Ok(n) => n@, Err(_) => default_sub_name(old(state).config) },
                    next->SaveNewSubscription_0@)
                &&& result is Err ==> exists|t: Seq<char>| error_msg(result->Err_0, t)
                    && final(state).logs.view() == appended(old(state).logs.view(),
                        (LogType::Warn, t + "，使用默认名称 "@ + default_sub_name(old(state).config)))
                &&& (result is Ok && !entry_keys(entries_of(old(state).config.proxy_providers)).contains(result->Ok_0@))
                    ==> next->SaveNewSubscription_0@ == result->Ok_0@
                &&& result is Err && !entry_keys(entries_of(old(state).config.proxy_providers)).contains(default_sub_name(old(state).config))
                    ==> next->SaveNewSubscription_0@ == default_sub_name(old(state).config)
                &&& result is Err ==> final(state).logs.view().last().0 == LogType::Warn
                &&& result is Ok ==> final(state).logs == old(state).logs
            },
        },
{
    match result {
        TaskResult::MihomoReady { ready } => {
            if ready {
                state.logs.add_log(LogType::Info, to_owned_string("mihomo 已就绪，正在拉取节点"));
                FollowUp::LoadNodes
            } else {
                state.logs.add_log(LogType::Warn, to_owned_string("进程已启动但端口未就绪（启动可能较慢或失败），可按 s 停止后重试"));
                FollowUp::Nothing
            }
        }
        TaskResult::NodesFetched { result } => {
            match result {
                Ok(proxy) => {
                    let ghost all = crate::heartbeat::strs(proxy.all@);
                    let mut nodes: Vec<Node> = Vec::new();
                    let mut active: Option<usize> = None;
                    let mut sel: usize = 0;
                    let mut i: usize = 0;
                    while i < proxy.all.len()
                        invariant
                            i <= proxy.all@.len(),
                            all == crate::heartbeat::strs(proxy.all@),
                            nodes_view(nodes@) == fresh_nodes(all.take(i as int)),
                            active == as_index(last_index(all.take(i as int), proxy.now@)),
                            sel == (match last_index(all.take(i as int), proxy.now@) { Some(k) => k as usize, None => 0 }),
                        decreases proxy.all@.len() - i,
                    {
                        let ghost before = nodes_view(nodes@);
                        proof {
                            assert(all.take(i as int + 1).drop_last() =~= all.take(i as int));
                            assert(all.take(i as int + 1).last() == proxy.all@[i as int]@);
                        }
                        if str_eq(proxy.all[i].as_str(), proxy.now.as_str()) {
                            active = Some(i);
                            sel = i;
                        }
                        nodes.push(Node::new(proxy.all[i].clone()));
                        proof {
                            assert(nodes_view(nodes@) =~= before.push((proxy.all@[i as int]@, "-"@)));
                            assert(fresh_nodes(all.take(i as int + 1)) =~= fresh_nodes(all.take(i as int)).push((proxy.all@[i as int]@, "-"@)));
                        }
                        i = i + 1;
                    }
                    proof {
                        assert(all.take(all.len() as int) =~= all);
                    }
                    state.mihomo.nodes = nodes;
                    state.mihomo.active_node = active;
                    *select = sel;
                    state.logs.add_log(LogType::Info, to_owned_string("更新代理信息"));
                }
                Err(e) => {
                    let t = error_text(&e);
                    let ghost tv = t@;
                    state.logs.add_log(LogType::Error, t);
                    proof { lemma_appended_last(old(state).logs.view(), (LogType::Error, tv)); }
                }
            }
            FollowUp::Nothing
        }
        TaskResult::DelaysFetched { result } => {
            match result {
                Ok(delays) => {
                    finish_delay_test(state, Ok(delays));
                }
                Err(e) => {
                    state.mihomo.is_test_delay = false;
                    let t = error_text(&e);
                    let ghost tv = t@;
                    state.logs.add_log(LogType::Error, t);
                    proof { lemma_appended_last(old(state).logs.view(), (LogType::Error, tv)); }
                }
            }
            FollowUp::Nothing
        }
        TaskResult::NodeSwitched { name, result } => {
            match result {
                Ok(()) => {
                    let mut m = to_owned_string("切换节点：");
                    push_str(&mut m, name.as_str());
                    state.logs.add_log(LogType::Info, m);
                }
                Err(e) => {
                    let t = error_text(&e);
                    let ghost tv = t@;
                    state.logs.add_log(LogType::Error, t);
                    proof { lemma_appended_last(old(state).logs.view(), (LogType::Error, tv)); }
                }
            }
            FollowUp::Nothing
        }
        TaskResult::ConfigReloaded { result } => {
            match result {
                Ok(()) => {
                    state.logs.add_log(LogType::Info, to_owned_string("重置配置成功"));
                    FollowUp::LoadNodes
                }
                Err(e) => {
                    let t = error_text(&e);
                    let ghost tv = t@;
                    state.logs.add_log(LogType::Error, t);
                    proof { lemma_appended_last(old(state).logs.view(), (LogType::Error, tv)); }
                    FollowUp::Nothing
                }
            }
        }
        TaskResult::ProviderNameFetched { url, result } => {
            let name = match result {
                Ok(n) => n,
                Err(e) => {
                    let n = provider_count(&state.config);
                    let fallback = sub_name(n + 1);
                    let mut m = error_text(&e);
                    let ghost t = m@;
                    push_str(&mut m, "，使用默认名称 ");
                    push_str(&mut m, fallback.as_str());
                    proof {
                        assert(error_msg(e, t));
                        assert(m@ == t + "，使用默认名称 "@ + fallback@);
                    }
                    state.logs.add_log(LogType::Warn, m);
                    fallback
                }
            };
            let ghost base = name@;
            let used = state.config.insert_sub(url, name);
            proof {
                assert(crate::config::unique_name(entry_keys(entries_of(old(state).config.proxy_providers)), base, used@));
            }
            FollowUp::SaveNewSubscription(used)
        }
    }
}

} // verus!
