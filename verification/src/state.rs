//! Shared application state: the local configuration, mihomo's runtime
//! state as the heartbeat sees it, and the operation log.
use vstd::prelude::*;
use crate::config::{MihomoConfig};
use crate::operation_log::OperationLogs;
use crate::process::MihomoStatus;
use crate::strings::{to_owned_string, push_str, push_decimal, decimal, str_eq};

verus! {

/// A node of the node list, with its last measured latency.
#[derive(Debug)]
pub struct Node {
    pub name: String,
    pub speed: String,
}

pub open spec fn node_view(n: Node) -> (Seq<char>, Seq<char>) {
    (n.name@, n.speed@)
}

pub open spec fn nodes_view(s: Seq<Node>) -> Seq<(Seq<char>, Seq<char>)> {
    s.map_values(|n: Node| node_view(n))
}

pub open spec fn node_names(s: Seq<Node>) -> Seq<Seq<char>> {
    s.map_values(|n: Node| n.name@)
}

impl Node {
    /// A node without a measurement yet (`-`).
    pub fn new(name: String) -> (n: Self)
        ensures
            n.name@ == name@,
            n.speed@ == "-"@,
    {
        Node { name, speed: to_owned_string("-") }
    }
}

/// Runtime facts read from the mihomo API; shown only.
#[derive(Debug, Clone, PartialEq, Eq)]
pub struct RuntimeInfo {
    pub version: Option<String>,
    pub mode: Option<String>,
    pub mixed_port: Option<u16>,
    pub http_port: Option<u16>,
    pub socks_port: Option<u16>,
    pub tun_enabled: Option<bool>,
    pub dns_enabled: Option<bool>,
    pub upload_total: u64,
    pub download_total: u64,
    pub api_ready: bool,
}

pub struct RuntimeView {
    pub version: Option<Seq<char>>,
    pub mode: Option<Seq<char>>,
    pub mixed_port: Option<u16>,
    pub http_port: Option<u16>,
    pub socks_port: Option<u16>,
    pub tun_enabled: Option<bool>,
    pub dns_enabled: Option<bool>,
    pub upload_total: u64,
    pub download_total: u64,
    pub api_ready: bool,
}

pub open spec fn opt_view(s: Option<String>) -> Option<Seq<char>> {
    match s { Some(s) => Some(s@), None => None }
}

impl View for RuntimeInfo {
    type V = RuntimeView;

    open spec fn view(&self) -> RuntimeView {
        RuntimeView {
            version: opt_view(self.version),
            mode: opt_view(self.mode),
            mixed_port: self.mixed_port,
            http_port: self.http_port,
            socks_port: self.socks_port,
            tun_enabled: self.tun_enabled,
            dns_enabled: self.dns_enabled,
            upload_total: self.upload_total,
            download_total: self.download_total,
            api_ready: self.api_ready,
        }
    }
}

/// Nothing known: no version, mode or ports, zero traffic, API not ready.
pub open spec fn empty_runtime() -> RuntimeView {
    RuntimeView {
        version: None,
        mode: None,
        mixed_port: None,
        http_port: None,
        socks_port: None,
        tun_enabled: None,
        dns_enabled: None,
        upload_total: 0,
        download_total: 0,
        api_ready: false,
    }
}

impl Default for RuntimeInfo {
    fn default() -> (r: Self)
        ensures
            r@ == empty_runtime(),
    {
        RuntimeInfo {
            version: None,
            mode: None,
            mixed_port: None,
            http_port: None,
            socks_port: None,
            tun_enabled: None,
            dns_enabled: None,
            upload_total: 0,
            download_total: 0,
            api_ready: false,
        }
    }
}

/// The compact run state that a status line shows: process, system proxy,
/// TUN, active node, and whether a delay test is running.
#[derive(Debug, Clone, Copy, PartialEq, Eq, Structural)]
pub struct MihomoManager {
    pub status: MihomoStatus,
    pub proxy_running: bool,
    pub tun_enabled: bool,
    pub active_node: Option<usize>,
    pub is_test_delay: bool,
}

/// mihomo's runtime state: written by the heartbeat and by the tasks.
#[derive(Debug)]
pub struct MihomoState {
    pub status: MihomoStatus,
    pub nodes: Vec<Node>,
    pub active_node: Option<usize>,
    pub proxy_running: bool,
    pub is_test_delay: bool,
    pub is_toggling: bool,
    pub is_switching_node: bool,
    pub runtime: RuntimeInfo,
}

pub struct MihomoStateView {
    pub status: MihomoStatus,
    pub nodes: Seq<(Seq<char>, Seq<char>)>,
    pub active_node: Option<usize>,
    pub proxy_running: bool,
    pub is_test_delay: bool,
    pub is_toggling: bool,
    pub is_switching_node: bool,
    pub runtime: RuntimeView,
}

impl View for MihomoState {
    type V = MihomoStateView;

    open spec fn view(&self) -> MihomoStateView {
        MihomoStateView {
            status: self.status,
            nodes: nodes_view(self.nodes@),
            active_node: self.active_node,
            proxy_running: self.proxy_running,
            is_test_delay: self.is_test_delay,
            is_toggling: self.is_toggling,
            is_switching_node: self.is_switching_node,
            runtime: self.runtime@,
        }
    }
}

impl Default for MihomoState {
    fn default() -> (s: Self)
        ensures
            s@ == (MihomoStateView {
                status: MihomoStatus::Stopped,
                nodes: Seq::empty(),
                active_node: None,
                proxy_running: false,
                is_test_delay: false,
                is_toggling: false,
                is_switching_node: false,
                runtime: empty_runtime(),
            }),
    {
        let s = MihomoState {
            status: MihomoStatus::Stopped,
            nodes: Vec::new(),
            active_node: None,
            proxy_running: false,
            is_test_delay: false,
            is_toggling: false,
            is_switching_node: false,
            runtime: RuntimeInfo::default(),
        };
        proof {
            assert(nodes_view(s.nodes@) =~= Seq::<(Seq<char>, Seq<char>)>::empty());
        }
        s
    }
}

/// Shared state: the local configuration (the only writable source), mihomo's
/// runtime state and the operation log.
#[derive(Debug)]
pub struct AppState {
    pub logs: OperationLogs,
    pub config: MihomoConfig,
    pub mihomo: MihomoState,
}

/// The port the system proxy should point at: the running mixed port, else the
/// running HTTP port (a zero port counts as absent), else the configured mixed
/// port, else the configured port; none when that is absent or zero.
pub open spec fn proxy_port(rt: RuntimeView, cfg_mixed: Option<u16>, cfg_port: Option<u16>) -> Option<u16> {
    let p = if rt.mixed_port is Some && rt.mixed_port->Some_0 > 0 {
        rt.mixed_port
    } else if rt.http_port is Some && rt.http_port->Some_0 > 0 {
        rt.http_port
    } else if cfg_mixed is Some {
        cfg_mixed
    } else {
        cfg_port
    };
    if p is Some && p->Some_0 > 0 { p } else { None }
}

impl AppState {
    /// Whether the configuration has TUN switched on.
    pub fn tun_enabled(&self) -> (r: bool)
        ensures
            r == (self.config.tun is Some && self.config.tun->Some_0.enable),
    {
        match &self.config.tun {
            Some(t) => t.enable,
            None => false,
        }
    }

    /// Whether the configuration has DNS switched on.
    pub fn dns_enabled(&self) -> (r: bool)
        ensures
            r == (self.config.dns is Some && self.config.dns->Some_0.enable),
    {
        match &self.config.dns {
            Some(d) => d.enable,
            None => false,
        }
    }

    /// The system proxy address `127.0.0.1:{port}` for the port chosen by `proxy_port`.
    pub fn proxy_addr(&self) -> (r: Option<String>)
        ensures
            match proxy_port(self.mihomo.runtime@, self.config.mixed_port, self.config.port) {
                Some(p) => r is Some && r->Some_0@ == "127.0.0.1:"@ + decimal(p as nat),
                None => r is None,
            },
    {
        let rt = &self.mihomo.runtime;
        let p: Option<u16> = match rt.mixed_port {
            Some(m) if m > 0 => Some(m),
            _ => match rt.http_port {
                Some(h) if h > 0 => Some(h),
                _ => match self.config.mixed_port {
                    Some(m) => Some(m),
                    None => self.config.port,
                },
            },
        };
        match p {
            Some(port) if port > 0 => {
                let mut s = to_owned_string("127.0.0.1:");
                push_decimal(&mut s, port as u64);
                Some(s)
            },
            _ => None,
        }
    }
}

/// Speed kept for `name` from `old`: that of the last node of that name, or `-`.
pub open spec fn kept_speed(old: Seq<(Seq<char>, Seq<char>)>, name: Seq<char>) -> Seq<char>
    decreases old.len(),
{
    if old.len() == 0 {
        "-"@
    } else if old.last().0 == name {
        old.last().1
    } else {
        kept_speed(old.drop_last(), name)
    }
}

/// The new node list for `names`, each keeping its old speed by name.
pub open spec fn merged(old: Seq<(Seq<char>, Seq<char>)>, names: Seq<Seq<char>>) -> Seq<(Seq<char>, Seq<char>)> {
    names.map_values(|n: Seq<char>| (n, kept_speed(old, n)))
}

fn speed_for(old: &[Node], name: &str) -> (r: String)
    ensures
        r@ == kept_speed(nodes_view(old@), name@),
{
    let mut i = old.len();
    proof {
        assert(nodes_view(old@).take(i as int) =~= nodes_view(old@));
    }
    while i > 0
        invariant
            i <= old@.len(),
            kept_speed(nodes_view(old@), name@) == kept_speed(nodes_view(old@).take(i as int), name@),
        decreases i,
    {
        let ghost t = nodes_view(old@).take(i as int);
        proof {
            assert(t.drop_last() =~= nodes_view(old@).take(i - 1));
        }
        if str_eq(old[i - 1].name.as_str(), name) {
            return old[i - 1].speed.clone();
        }
        i = i - 1;
    }
    to_owned_string("-")
}

/// Rebuilds the node list for `names`, keeping each node's measured speed by
/// name, so that a refresh does not wipe latency results.
pub fn merge_nodes(old: &[Node], names: &[String]) -> (r: Vec<Node>)
    ensures
        nodes_view(r@) == merged(nodes_view(old@), names@.map_values(|s: String| s@)),
{
    let mut r: Vec<Node> = Vec::new();
    let mut i: usize = 0;
    while i < names.len()
        invariant
            i <= names@.len(),
            nodes_view(r@) == merged(nodes_view(old@), names@.map_values(|s: String| s@).take(i as int)),
        decreases names@.len() - i,
    {
        let ghost before = nodes_view(r@);
        let speed = speed_for(old, names[i].as_str());
        r.push(Node { name: names[i].clone(), speed });
        proof {
            let all = names@.map_values(|s: String| s@);
            assert(all.take(i as int + 1) =~= all.take(i as int).push(names@[i as int]@));
            assert(nodes_view(r@) =~= before.push((names@[i as int]@, kept_speed(nodes_view(old@), names@[i as int]@))));
            assert(merged(nodes_view(old@), all.take(i as int + 1))
                =~= merged(nodes_view(old@), all.take(i as int)).push((names@[i as int]@, kept_speed(nodes_view(old@), names@[i as int]@))));
        }
        i = i + 1;
    }
    proof {
        let all = names@.map_values(|s: String| s@);
        assert(all.take(names@.len() as int) =~= all);
    }
    r
}

proof fn lemma_kept_speed_at(old: Seq<(Seq<char>, Seq<char>)>, i: int)
    requires
        0 <= i < old.len(),
        forall|a: int, b: int| 0 <= a < b < old.len() ==> old[a].0 != old[b].0,
    ensures
        kept_speed(old, old[i].0) == old[i].1,
    decreases old.len(),
{
    if i < old.len() - 1 {
        assert(old.last().0 != old[i].0);
        assert(old.drop_last()[i] == old[i]);
        lemma_kept_speed_at(old.drop_last(), i);
    }
}

/// A refresh that brings back the same node names (without repeats) leaves
/// the node list, speeds included, as it was.
pub proof fn lemma_merge_same_names(old: Seq<(Seq<char>, Seq<char>)>)
    requires
        forall|a: int, b: int| 0 <= a < b < old.len() ==> old[a].0 != old[b].0,
    ensures
        merged(old, old.map_values(|p: (Seq<char>, Seq<char>)| p.0)) == old,
{
    let names = old.map_values(|p: (Seq<char>, Seq<char>)| p.0);
    assert forall|i: int| 0 <= i < old.len() implies #[trigger] merged(old, names)[i] == old[i] by {
        lemma_kept_speed_at(old, i);
    }
    assert(merged(old, names) =~= old);
}

/// Whether the list of names changed (speeds alone do not count).
pub fn node_names_changed(old: &[Node], new: &[Node]) -> (r: bool)
    ensures
        r == (node_names(old@) != node_names(new@)),
{
    if old.len() != new.len() {
        proof {
            assert(node_names(old@).len() != node_names(new@).len());
        }
        return true;
    }
    let mut i: usize = 0;
    while i < old.len()
        invariant
            i <= old@.len(),
            old@.len() == new@.len(),
            forall|k: int| 0 <= k < i ==> old@[k].name@ == new@[k].name@,
        decreases old@.len() - i,
    {
        if !str_eq(old[i].name.as_str(), new[i].name.as_str()) {
            proof {
                assert(node_names(old@)[i as int] != node_names(new@)[i as int]);
            }
            return true;
        }
        i = i + 1;
    }
    proof {
        assert(node_names(old@) =~= node_names(new@));
    }
    false
}

} // verus!
