//! Decisions about the mihomo process: its status, its control port, which
//! running process is ours, and what the system tools report about it.
use vstd::prelude::*;
use crate::binary::{BinarySource, ResolvedBinary};
use crate::error::{Error, process_error};
use crate::strings::{
    chars_of, string_of, to_owned_string, push_str, lines_of, words_of, line_ranges, word_ranges,
    ranges_view, ranges_valid, parse_uint_range, parse_bounded, range_eq, range_eq_ignore_case,
    range_ends_with, range_starts_with, range_contains, eq_ignore_case, lower_seq, starts_with,
    ends_with, contains_seq, decimal, push_decimal, trim_ws, trim_ws_range,
};

verus! {

/// Whether mihomo runs; the PID is 0 when it was not recorded.
#[derive(Debug, Clone, Copy, PartialEq, Eq, Structural)]
pub enum MihomoStatus {
    Stopped,
    Running(u32),
}

/// The status follows the control port alone: reachable means running (PID unknown).
pub fn detect_status(port_up: bool) -> (s: MihomoStatus)
    ensures
        s == (if port_up { MihomoStatus::Running(0) } else { MihomoStatus::Stopped }),
{
    if port_up { MihomoStatus::Running(0) } else { MihomoStatus::Stopped }
}

/// Whether a new mihomo may be started: it needs the configuration directory,
/// and refuses when the control port is already taken.
pub fn start_mihomo(has_config_dir: bool, port_up: bool) -> (r: Result<(), Error>)
    ensures
        has_config_dir && !port_up <==> r is Ok,
        !has_config_dir ==> (r matches Err(Error::Process(m)) && m@ == "无法获取配置目录"@),
        has_config_dir && port_up ==>
            (r matches Err(Error::Process(m)) && m@ == "端口已被 mihomo 占用，未启动新进程"@),
{
    if !has_config_dir {
        return Err(process_error("无法获取配置目录"));
    }
    if port_up {
        return Err(process_error("端口已被 mihomo 占用，未启动新进程"));
    }
    Ok(())
}

/// The process to stop is the owner of the control port; without one there is nothing to stop.
pub fn stop_mihomo(owner: Option<u32>) -> (r: Result<u32, Error>)
    ensures
        owner is Some ==> r == Ok::<u32, Error>(owner->Some_0),
        owner is None ==> (r matches Err(Error::Process(m)) && m@ == "未找到监听控制端口的 mihomo 进程"@),
{
    match owner {
        Some(pid) => Ok(pid),
        None => Err(process_error("未找到监听控制端口的 mihomo 进程")),
    }
}

/// PID 0 and PIDs beyond `pid_t` are not valid process ids.
pub fn pid_in_range(pid: u32) -> (r: bool)
    ensures
        r == (pid != 0 && pid <= i32::MAX),
{
    pid != 0 && pid <= 0x7fff_ffff
}

// ===== control port =====

/// Index of the last `c` in `s`, or -1.
pub open spec fn last_index_of(s: Seq<char>, c: char) -> int
    decreases s.len(),
{
    if s.len() == 0 { -1 } else if s.last() == c { s.len() - 1 } else { last_index_of(s.drop_last(), c) }
}

pub proof fn lemma_last_index_of(s: Seq<char>, c: char)
    ensures
        -1 <= last_index_of(s, c) < s.len(),
        last_index_of(s, c) >= 0 ==> s[last_index_of(s, c)] == c,
        forall|j: int| last_index_of(s, c) < j < s.len() ==> s[j] != c,
    decreases s.len(),
{
    if s.len() > 0 && s.last() != c {
        lemma_last_index_of(s.drop_last(), c);
        assert forall|j: int| last_index_of(s, c) < j < s.len() implies s[j] != c by {
            if j < s.len() - 1 {
                assert(s[j] == s.drop_last()[j]);
            }
        }
    }
}

/// Position of the last `c` in `v[..hi]`, or `None`.
fn rfind_char(v: &Vec<char>, hi: usize, c: char) -> (r: Option<usize>)
    requires
        hi <= v.len(),
    ensures
        match r {
            Some(k) => k as int == last_index_of(v@.take(hi as int), c) && k < hi,
            None => last_index_of(v@.take(hi as int), c) == -1,
        },
{
    let mut j = hi;
    while j > 0
        invariant
            j <= hi <= v.len(),
            last_index_of(v@.take(hi as int), c) == last_index_of(v@.take(j as int), c),
        decreases j,
    {
        proof {
            assert(v@.take(j as int).drop_last() =~= v@.take(j - 1));
        }
        if v[j - 1] == c {
            return Some(j - 1);
        }
        j = j - 1;
    }
    None
}

/// The control port of an external-controller address such as
/// `127.0.0.1:9090` or `:9090`: the text after the last `:` as a `u16`.
pub open spec fn ctrl_port_of(addr: Seq<char>) -> Option<nat> {
    let k = last_index_of(addr, ':');
    if k >= 0 { parse_bounded(addr.skip(k + 1), 10, 65535) } else { None }
}

/// Control port of an external-controller address.
pub fn ctrl_port(addr: &str) -> (r: Option<u16>)
    ensures
        match ctrl_port_of(addr@) {
            Some(p) => r == Some(p as u16),
            None => r is None,
        },
{
    let v = chars_of(addr);
    proof {
        assert(v@.take(v@.len() as int) =~= v@);
    }
    match rfind_char(&v, v.len(), ':') {
        None => None,
        Some(k) => {
            proof {
                assert(v@.subrange(k + 1, v@.len() as int) =~= v@.skip(k + 1));
            }
            match parse_uint_range(&v, k + 1, v.len(), 10, 65535) {
                Some(n) => Some(n as u16),
                None => None,
            }
        }
    }
}

// ===== which process is mihomo =====

/// Last component of a Windows or Unix path: the text after the last `\` or
/// `/`, or the whole path when that text is empty.
pub open spec fn image_name_of(path: Seq<char>) -> Seq<char> {
    let k = if last_index_of(path, '\\') > last_index_of(path, '/') {
        last_index_of(path, '\\')
    } else {
        last_index_of(path, '/')
    };
    if k + 1 < path.len() { path.skip(k + 1) } else { path }
}

/// Image (file) name of the mihomo executable at `mihomo_path`.
pub fn mihomo_image_name(mihomo_path: &str) -> (r: String)
    ensures
        r@ == image_name_of(mihomo_path@),
{
    let v = chars_of(mihomo_path);
    proof {
        assert(v@.take(v@.len() as int) =~= v@);
    }
    let b = rfind_char(&v, v.len(), '\\');
    let f = rfind_char(&v, v.len(), '/');
    let start: usize = match (b, f) {
        (Some(x), Some(y)) => if x > y { x + 1 } else { y + 1 },
        (Some(x), None) => x + 1,
        (None, Some(y)) => y + 1,
        (None, None) => 0,
    };
    if start < v.len() {
        proof {
            assert(v@.subrange(start as int, v@.len() as int) =~= v@.skip(start as int));
            if start == 0 {
                assert(v@.skip(0) =~= v@);
            }
        }
        string_of(&v, start, v.len())
    } else {
        proof {
            assert(v@.subrange(0, v@.len() as int) =~= v@);
        }
        string_of(&v, 0, v.len())
    }
}

/// A process belongs to us when its command line holds the (non-empty)
/// configuration directory, or else when its image name equals the resolved
/// executable's image name, ignoring ASCII case.
pub open spec fn is_our_mihomo(name: Seq<char>, cmdline: Seq<char>, cmd: Seq<char>, config_dir: Seq<char>) -> bool {
    (config_dir.len() > 0 && contains_seq(cmdline, config_dir))
        || eq_ignore_case(name, image_name_of(cmd))
}

/// Whether the process with image `name` and command line `cmdline` is the
/// mihomo that this program started for `config_dir`.
pub fn matches_mihomo_info(name: &str, cmdline: &str, binary: &ResolvedBinary, config_dir: &str) -> (r: bool)
    ensures
        r == is_our_mihomo(name@, cmdline@, binary.cmd@, config_dir@),
{
    let dir = chars_of(config_dir);
    let cl = chars_of(cmdline);
    proof {
        assert(cl@.subrange(0, cl@.len() as int) =~= cl@);
        assert(dir@.subrange(0, dir@.len() as int) =~= dir@);
    }
    if dir.len() > 0 && range_contains(&cl, 0, cl.len(), &dir) {
        return true;
    }
    let img = mihomo_image_name(binary.cmd.as_str());
    let n = chars_of(name);
    let iv = chars_of(img.as_str());
    proof {
        assert(n@.subrange(0, n@.len() as int) =~= n@);
    }
    range_eq_ignore_case(&n, 0, n.len(), &iv)
}

/// Image names that belong to mihomo start with `mihomo`, ignoring ASCII case
/// (`mihomo.exe`, `mihomo-windows-amd64.exe`, ...).
pub fn name_matches(name: &str) -> (r: bool)
    ensures
        r == starts_with(lower_seq(name@), "mihomo"@),
{
    let n = chars_of(name);
    let low = crate::strings::lower_chars(&n, 0, n.len());
    let p = chars_of("mihomo");
    proof {
        assert(n@.subrange(0, n@.len() as int) =~= n@);
        assert(low@.subrange(0, low@.len() as int) =~= low@);
    }
    range_starts_with(&low, 0, low.len(), &p)
}

// ===== netstat =====

/// Whether the columns of a `netstat -ano -p tcp` line show a TCP socket
/// listening on a local address that ends with `:port`.
pub open spec fn netstat_listens(cols: Seq<Seq<char>>, port: nat) -> bool {
    cols.len() >= 5 && eq_ignore_case(cols[0], "TCP"@) && cols[3] == "LISTENING"@
        && ends_with(cols[1], seq![':'] + decimal(port))
}

/// The PID column of the first listening line for `port`, parsed as `u32`.
pub open spec fn netstat_pid(lines: Seq<Seq<char>>, port: nat) -> Option<nat>
    decreases lines.len(),
{
    if lines.len() == 0 {
        None
    } else if netstat_listens(words_of(lines[0]), port) {
        parse_bounded(words_of(lines[0])[4], 10, u32::MAX as nat)
    } else {
        netstat_pid(lines.drop_first(), port)
    }
}

/// PID of the process that listens on local `port`, from `netstat -ano -p tcp` output.
pub fn parse_netstat_listen_pid(output: &str, port: u16) -> (r: Option<u32>)
    ensures
        match netstat_pid(lines_of(output@), port as nat) {
            Some(p) => r == Some(p as u32),
            None => r is None,
        },
{
    let v = chars_of(output);
    let lines = line_ranges(&v);
    let mut suffix = to_owned_string(":");
    push_decimal(&mut suffix, port as u64);
    proof {
        reveal_strlit(":");
    }
    let sfx = chars_of(suffix.as_str());
    let tcp = chars_of("TCP");
    let listening = chars_of("LISTENING");
    let mut i: usize = 0;
    proof {
        assert(ranges_view(v@, lines@).skip(0) =~= ranges_view(v@, lines@));
    }
    while i < lines.len()
        invariant
            v@ == output@,
            i <= lines.len(),
            ranges_valid(lines@, 0, v@.len() as int),
            ranges_view(v@, lines@) == lines_of(v@),
            sfx@ == seq![':'] + decimal(port as nat),
            tcp@ == "TCP"@,
            listening@ == "LISTENING"@,
            netstat_pid(lines_of(v@), port as nat) == netstat_pid(ranges_view(v@, lines@).skip(i as int), port as nat),
        decreases lines.len() - i,
    {
        let (lo, hi) = lines[i];
        let ghost rest = ranges_view(v@, lines@).skip(i as int);
        let ghost line = v@.subrange(lo as int, hi as int);
        proof {
            assert(rest[0] == line);
            assert(rest.drop_first() =~= ranges_view(v@, lines@).skip(i as int + 1));
        }
        let cols = word_ranges(&v, lo, hi);
        let ghost cv = ranges_view(v@, cols@);
        if cols.len() >= 5 {
            let (a0, b0) = cols[0];
            let (a1, b1) = cols[1];
            let (a3, b3) = cols[3];
            let (a4, b4) = cols[4];
            proof {
                assert(cv[0] == v@.subrange(a0 as int, b0 as int));
                assert(cv[1] == v@.subrange(a1 as int, b1 as int));
                assert(cv[3] == v@.subrange(a3 as int, b3 as int));
                assert(cv[4] == v@.subrange(a4 as int, b4 as int));
            }
            if range_eq_ignore_case(&v, a0, b0, &tcp) && range_eq(&v, a3, b3, &listening)
                && range_ends_with(&v, a1, b1, &sfx)
            {
                return match parse_uint_range(&v, a4, b4, 10, 0xffff_ffff) {
                    Some(n) => Some(n as u32),
                    None => None,
                };
            }
        }
        i = i + 1;
    }
    None
}

// ===== /proc scans =====

/// The inode column of the first `/proc/net/tcp` row (after the header) that
/// is listening (state `0A`) on local port `port`, the port written in hex.
pub open spec fn listen_inode(rows: Seq<Seq<char>>, port: nat) -> Option<Seq<char>>
    decreases rows.len(),
{
    if rows.len() == 0 {
        None
    } else {
        let cols = words_of(rows[0]);
        let hit = cols.len() >= 10 && cols[3] == "0A"@ && last_index_of(cols[1], ':') >= 0
            && parse_bounded(cols[1].skip(last_index_of(cols[1], ':') + 1), 16, 65535) == Some(port);
        if hit { Some(cols[9]) } else { listen_inode(rows.drop_first(), port) }
    }
}

/// The rows of `/proc/net/tcp` after its header line.
pub open spec fn table_rows(lines: Seq<Seq<char>>) -> Seq<Seq<char>> {
    if lines.len() == 0 { seq![] } else { lines.drop_first() }
}

/// Whether a `/proc/net/tcp` row is a socket in state `0A` (listening) whose
/// local address (column 1, `addr:port`) ends in `port` written in hex.
pub open spec fn row_listens_on(row: Seq<char>, port: nat) -> bool {
    let cols = words_of(row);
    &&& cols.len() >= 10
    &&& cols[3] == "0A"@
    &&& exists|k: int| 0 <= k < cols[1].len() && cols[1][k] == ':'
        && (forall|j: int| k < j < cols[1].len() ==> cols[1][j] != ':')
        && parse_bounded(cols[1].skip(k + 1), 16, 65535) == Some(port)
}

/// When some row listens on `port`, the scan finds it: the result is the
/// inode column of the first row listening on `port`, whatever rows listening
/// on other ports stand before or after it.
pub proof fn lemma_listen_inode_finds(rows: Seq<Seq<char>>, port: nat, j: int)
    requires
        0 <= j < rows.len(),
        row_listens_on(rows[j], port),
    ensures
        exists|k: int| 0 <= k <= j && #[trigger] row_listens_on(rows[k], port)
            && (forall|m: int| 0 <= m < k ==> !row_listens_on(rows[m], port))
            && listen_inode(rows, port) == Some(words_of(rows[k])[9]),
    decreases j,
{
    let cols = words_of(rows[0]);
    lemma_last_index_of(cols[1], ':');
    let hit = cols.len() >= 10 && cols[3] == "0A"@ && last_index_of(cols[1], ':') >= 0
        && parse_bounded(cols[1].skip(last_index_of(cols[1], ':') + 1), 16, 65535) == Some(port);
    assert(hit == row_listens_on(rows[0], port)) by {
        if row_listens_on(rows[0], port) {
            let k = choose|k: int| 0 <= k < cols[1].len() && cols[1][k] == ':'
                && (forall|j: int| k < j < cols[1].len() ==> cols[1][j] != ':')
                && parse_bounded(cols[1].skip(k + 1), 16, 65535) == Some(port);
            assert(k == last_index_of(cols[1], ':'));
        }
        if hit {
            let k = last_index_of(cols[1], ':');
            assert(0 <= k < cols[1].len() && cols[1][k] == ':');
        }
    }
    if hit {
        assert(row_listens_on(rows[0], port));
    } else {
        assert(j > 0);
        assert(rows.drop_first()[j - 1] == rows[j]);
        lemma_listen_inode_finds(rows.drop_first(), port, j - 1);
        let k = choose|k: int| 0 <= k <= j - 1 && #[trigger] row_listens_on(rows.drop_first()[k], port)
            && (forall|m: int| 0 <= m < k ==> !row_listens_on(rows.drop_first()[m], port))
            && listen_inode(rows.drop_first(), port) == Some(words_of(rows.drop_first()[k])[9]);
        assert(rows.drop_first()[k] == rows[k + 1]);
        assert forall|m: int| 0 <= m < k + 1 implies !row_listens_on(rows[m], port) by {
            if m > 0 {
                assert(rows.drop_first()[m - 1] == rows[m]);
            }
        }
        assert(row_listens_on(rows[k + 1], port));
    }
}

/// On `/proc/net/tcp` content: a line after the header that listens on
/// `port` makes `socket_inode_for_port` find an inode.
pub proof fn lemma_table_listener_found(content: Seq<char>, port: nat, j: int)
    requires
        1 <= j < lines_of(content).len(),
        row_listens_on(lines_of(content)[j], port),
    ensures
        listen_inode(table_rows(lines_of(content)), port) is Some,
{
    let rows = table_rows(lines_of(content));
    assert(rows[j - 1] == lines_of(content)[j]);
    lemma_listen_inode_finds(rows, port, j - 1);
}

/// Inode of the socket listening on `port`, from `/proc/net/tcp` content.
pub fn socket_inode_for_port(content: &str, port: u16) -> (r: Option<String>)
    ensures
        match listen_inode(table_rows(lines_of(content@)), port as nat) {
            Some(s) => r is Some && r->Some_0@ == s,
            None => r is None,
        },
{
    let v = chars_of(content);
    let lines = line_ranges(&v);
    let state = chars_of("0A");
    if lines.len() == 0 {
        return None;
    }
    let mut i: usize = 1;
    proof {
        assert(ranges_view(v@, lines@).skip(1) =~= lines_of(v@).drop_first());
    }
    while i < lines.len()
        invariant
            v@ == content@,
            1 <= i <= lines.len(),
            ranges_valid(lines@, 0, v@.len() as int),
            ranges_view(v@, lines@) == lines_of(v@),
            state@ == "0A"@,
            listen_inode(table_rows(lines_of(v@)), port as nat)
                == listen_inode(ranges_view(v@, lines@).skip(i as int), port as nat),
        decreases lines.len() - i,
    {
        let (lo, hi) = lines[i];
        let ghost rest = ranges_view(v@, lines@).skip(i as int);
        proof {
            assert(rest[0] == v@.subrange(lo as int, hi as int));
            assert(rest.drop_first() =~= ranges_view(v@, lines@).skip(i as int + 1));
        }
        let cols = word_ranges(&v, lo, hi);
        let ghost cv = ranges_view(v@, cols@);
        if cols.len() >= 10 {
            let (a1, b1) = cols[1];
            let (a3, b3) = cols[3];
            let (a9, b9) = cols[9];
            proof {
                assert(cv[1] == v@.subrange(a1 as int, b1 as int));
                assert(cv[3] == v@.subrange(a3 as int, b3 as int));
                assert(cv[9] == v@.subrange(a9 as int, b9 as int));
            }
            if range_eq(&v, a3, b3, &state) {
                let col1 = string_of(&v, a1, b1);
                let c1 = chars_of(col1.as_str());
                proof {
                    assert(c1@.take(c1@.len() as int) =~= c1@);
                }
                match rfind_char(&c1, c1.len(), ':') {
                    Some(k) => {
                        proof {
                            assert(c1@.subrange(k + 1, c1@.len() as int) =~= c1@.skip(k + 1));
                        }
                        let p = parse_uint_range(&c1, k + 1, c1.len(), 16, 0xffff);
                        if p == Some(port as u64) {
                            return Some(string_of(&v, a9, b9));
                        }
                    }
                    None => {}
                }
            }
        }
        i = i + 1;
    }
    None
}

/// The value of the `CapEff:` line of `/proc/<pid>/status`, read as hex.
pub open spec fn cap_eff_in(lines: Seq<Seq<char>>) -> Option<nat>
    decreases lines.len(),
{
    if lines.len() == 0 {
        None
    } else {
        match cap_line(lines[0]) {
            Some(n) => Some(n),
            None => cap_eff_in(lines.drop_first()),
        }
    }
}

/// The capability value a single status line gives, if it is a `CapEff:` line.
pub open spec fn cap_line(line: Seq<char>) -> Option<nat> {
    if starts_with(line, "CapEff:\t"@) {
        parse_bounded(trim_ws(line.skip(8)), 16, u64::MAX as nat)
    } else {
        None
    }
}

proof fn lemma_cap_eff_in(lines: Seq<Seq<char>>)
    requires
        lines.len() > 0,
    ensures
        cap_eff_in(lines) == (match cap_line(lines[0]) {
            Some(n) => Some(n),
            None => cap_eff_in(lines.drop_first()),
        }),
{
}

fn cap_line_value(v: &Vec<char>, lo: usize, hi: usize, prefix: &Vec<char>) -> (r: Option<u64>)
    requires
        lo <= hi <= v.len(),
        prefix@ == "CapEff:\t"@,
        prefix@.len() == 8,
    ensures
        match cap_line(v@.subrange(lo as int, hi as int)) {
            Some(n) => r == Some(n as u64),
            None => r is None,
        },
{
    if range_starts_with(v, lo, hi, prefix) {
        let (a, b) = trim_ws_range(v, lo + 8, hi);
        proof {
            assert(v@.subrange(lo as int, hi as int).skip(8) =~= v@.subrange(lo + 8, hi as int));
        }
        parse_uint_range(v, a, b, 16, 0xffff_ffff_ffff_ffff)
    } else {
        None
    }
}

/// Effective capabilities from the text of `/proc/<pid>/status`.
pub fn cap_eff_of(status: &str) -> (r: Option<u64>)
    ensures
        match cap_eff_in(lines_of(status@)) {
            Some(n) => r == Some(n as u64),
            None => r is None,
        },
{
    let v = chars_of(status);
    let lines = line_ranges(&v);
    let prefix = chars_of("CapEff:\t");
    let mut i: usize = 0;
    proof {
        assert(ranges_view(v@, lines@).skip(0) =~= ranges_view(v@, lines@));
        reveal_strlit("CapEff:\t");
    }
    while i < lines.len()
        invariant
            v@ == status@,
            i <= lines.len(),
            ranges_valid(lines@, 0, v@.len() as int),
            ranges_view(v@, lines@) == lines_of(v@),
            prefix@ == "CapEff:\t"@,
            prefix@.len() == 8,
            cap_eff_in(lines_of(v@)) == cap_eff_in(ranges_view(v@, lines@).skip(i as int)),
        decreases lines.len() - i,
    {
        let (lo, hi) = lines[i];
        let ghost rest = ranges_view(v@, lines@).skip(i as int);
        proof {
            assert(rest[0] == v@.subrange(lo as int, hi as int));
            assert(rest.drop_first() =~= ranges_view(v@, lines@).skip(i as int + 1));
            lemma_cap_eff_in(rest);
        }
        match cap_line_value(&v, lo, hi, &prefix) {
            Some(n) => {
                return Some(n);
            }
            None => {}
        }
        i = i + 1;
    }
    None
}

/// `CAP_NET_ADMIN` and `CAP_NET_RAW`, the capabilities that TUN needs.
pub open spec fn tun_caps() -> u64 {
    0x3000
}

/// Whether an effective capability set lacks one of the TUN capabilities.
pub fn tun_caps_missing(cap_eff: u64) -> (r: bool)
    ensures
        r == (cap_eff & tun_caps() != tun_caps()),
{
    cap_eff & 0x3000 != 0x3000
}

/// The TUN warning for mihomo `pid` with capabilities `cap_eff`, or none when
/// both capabilities are there. `binary` is the extracted executable, if any,
/// to suggest the `setcap` command for.
pub fn tun_capability_warning(pid: u32, cap_eff: u64, binary: Option<&str>) -> (r: Option<String>)
    ensures
        cap_eff & tun_caps() == tun_caps() <==> r is None,
        r is Some ==> r->Some_0@ == "mihomo(PID="@ + decimal(pid as nat)
            + ")缺少CAP_NET_ADMIN/CAP_NET_RAW，TUN可能起不来。"@
            + (match binary {
                Some(b) => "请执行一次: sudo setcap cap_net_admin,cap_net_raw+eip "@ + b@,
                None => "请用 setcap 给 mihomo 授予 CAP_NET_ADMIN/CAP_NET_RAW"@,
            }),
{
    if !tun_caps_missing(cap_eff) {
        return None;
    }
    let mut s = to_owned_string("mihomo(PID=");
    push_decimal(&mut s, pid as u64);
    push_str(&mut s, ")缺少CAP_NET_ADMIN/CAP_NET_RAW，TUN可能起不来。");
    match binary {
        Some(b) => {
            push_str(&mut s, "请执行一次: sudo setcap cap_net_admin,cap_net_raw+eip ");
            push_str(&mut s, b);
        }
        None => {
            push_str(&mut s, "请用 setcap 给 mihomo 授予 CAP_NET_ADMIN/CAP_NET_RAW");
        }
    }
    proof {
        assert(s@ =~= "mihomo(PID="@ + decimal(pid as nat)
            + ")缺少CAP_NET_ADMIN/CAP_NET_RAW，TUN可能起不来。"@
            + (match binary {
                Some(b) => "请执行一次: sudo setcap cap_net_admin,cap_net_raw+eip "@ + b@,
                None => "请用 setcap 给 mihomo 授予 CAP_NET_ADMIN/CAP_NET_RAW"@,
            }));
    }
    Some(s)
}

// ===== prepared executable =====

/// The executable made ready to run: a temporary file whose directory is
/// removed when the process exits, or a file in the cache directory.
#[derive(Debug, Clone, PartialEq, Eq)]
pub enum PreparedExec {
    Temp { path: String, dir: String },
    Cache(String),
}

impl PreparedExec {
    /// The file to run.
    pub fn path(&self) -> (r: &String)
        ensures
            r == (match *self {
                PreparedExec::Temp { path, .. } => path,
                PreparedExec::Cache(path) => path,
            }),
    {
        match self {
            PreparedExec::Temp { path, .. } => path,
            PreparedExec::Cache(path) => path,
        }
    }

    /// Where the executable came from.
    pub fn source(&self) -> (r: BinarySource)
        ensures
            r == (match *self {
                PreparedExec::Temp { path, .. } => BinarySource::TempFile(path),
                PreparedExec::Cache(path) => BinarySource::CacheFile(path),
            }),
    {
        match self {
            PreparedExec::Temp { path, .. } => BinarySource::TempFile(path.clone()),
            PreparedExec::Cache(path) => BinarySource::CacheFile(path.clone()),
        }
    }

    /// The temporary directory to remove after the process exits.
    pub fn cleanup_dir(&self) -> (r: Option<&String>)
        ensures
            r == (match *self {
                PreparedExec::Temp { dir, .. } => Some(&dir),
                PreparedExec::Cache(_) => None,
            }),
    {
        match self {
            PreparedExec::Temp { dir, .. } => Some(dir),
            PreparedExec::Cache(_) => None,
        }
    }
}

// ===== pid file =====

/// Name of the file that records the PID of the mihomo this program started.
pub const PID_FILE: &'static str = "mihomo.pid";

/// Path of the PID file inside the configuration directory.
pub fn pidfile_path(config_dir: &str) -> (r: String)
    ensures
        r@ == crate::binary::join_path(config_dir@, PID_FILE@),
{
    let d = chars_of(config_dir);
    let mut r = to_owned_string(config_dir);
    if d.len() > 0 && d[d.len() - 1] != '/' {
        r.push('/');
    }
    push_str(&mut r, PID_FILE);
    proof {
        if d@.len() == 0 {
            assert(r@ =~= PID_FILE@);
        }
    }
    r
}

/// The PID (and whether it was started elevated) that a PID file records:
/// `pid:flag` with flag `1` for elevated, or a bare `pid`, around whitespace.
pub open spec fn pidfile_record(content: Seq<char>) -> Option<(nat, bool)> {
    let t = trim_ws(content);
    match crate::strings::split_once_char(t, ':') {
        Some((p, f)) => match parse_bounded(trim_ws(p), 10, u32::MAX as nat) {
            Some(n) => Some((n, trim_ws(f) == "1"@)),
            None => None,
        },
        None => match parse_bounded(t, 10, u32::MAX as nat) {
            Some(n) => Some((n, false)),
            None => None,
        },
    }
}

/// Reads a PID file's content.
pub fn parse_pidfile(content: &str) -> (r: Option<(u32, bool)>)
    ensures
        match pidfile_record(content@) {
            Some((n, e)) => r == Some((n as u32, e)),
            None => r is None,
        },
{
    let v = chars_of(content);
    let (a, b) = trim_ws_range(&v, 0, v.len());
    proof {
        assert(v@.subrange(0, v@.len() as int) =~= v@);
    }
    let ghost t = v@.subrange(a as int, b as int);
    let k = crate::strings::find_char(&v, a, b, ':');
    proof {
        crate::strings::lemma_index_of_char(t, ':');
    }
    if k < b {
        let (pa, pb) = trim_ws_range(&v, a, k);
        let (fa, fb) = trim_ws_range(&v, k + 1, b);
        proof {
            assert(t.take(k - a) =~= v@.subrange(a as int, k as int));
            assert(t.skip(k - a + 1) =~= v@.subrange(k + 1, b as int));
        }
        match parse_uint_range(&v, pa, pb, 10, 0xffff_ffff) {
            Some(n) => {
                let one = chars_of("1");
                let e = range_eq(&v, fa, fb, &one);
                Some((n as u32, e))
            }
            None => None,
        }
    } else {
        match parse_uint_range(&v, a, b, 10, 0xffff_ffff) {
            Some(n) => Some((n as u32, false)),
            None => None,
        }
    }
}


// ===== wide strings =====

/// The UTF-16 code units of one character: itself below `0x10000`, else a
/// surrogate pair.
pub open spec fn utf16_of(c: char) -> Seq<u16> {
    let v = c as u32;
    if v < 0x10000 {
        seq![v as u16]
    } else {
        let w = v - 0x10000;
        seq![(0xD800 + w / 1024) as u16, (0xDC00 + w % 1024) as u16]
    }
}

/// The UTF-16 encoding of a character sequence.
pub open spec fn utf16(s: Seq<char>) -> Seq<u16>
    decreases s.len(),
{
    if s.len() == 0 { seq![] } else { utf16(s.drop_last()) + utf16_of(s.last()) }
}

/// A NUL-terminated UTF-16 string, the form wide-character system calls take.
pub fn to_wide(s: &str) -> (r: Vec<u16>)
    ensures
        r@ == utf16(s@).push(0u16),
{
    let v = chars_of(s);
    let mut out: Vec<u16> = Vec::new();
    let mut i: usize = 0;
    while i < v.len()
        invariant
            v@ == s@,
            i <= v.len(),
            out@ == utf16(v@.take(i as int)),
        decreases v.len() - i,
    {
        let c = v[i];
        let n: u32 = c as u32;
        proof {
            vstd::utf8::char_is_scalar(c);
            assert(n <= 0x10FFFF);
            assert(v@.take(i as int + 1).drop_last() =~= v@.take(i as int));
            assert(v@.take(i as int + 1).last() == c);
        }
        if n < 0x10000 {
            out.push(n as u16);
        } else {
            let w: u32 = n - 0x10000;
            out.push((0xD800 + w / 1024) as u16);
            out.push((0xDC00 + w % 1024) as u16);
        }
        proof {
            assert(out@ =~= utf16(v@.take(i as int)) + utf16_of(c));
        }
        i = i + 1;
    }
    proof {
        assert(v@.take(v@.len() as int) =~= v@);
    }
    out.push(0);
    out
}

} // verus!
