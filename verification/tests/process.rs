use coclash::binary::{BinarySource, ResolvedBinary};
use coclash::process::{
    cap_eff_of, ctrl_port, detect_status, matches_mihomo_info, mihomo_image_name, name_matches,
    parse_netstat_listen_pid, parse_pidfile, pid_in_range, pidfile_path, socket_inode_for_port,
    start_mihomo, stop_mihomo, to_wide, tun_capability_warning, tun_caps_missing, MihomoStatus,
    PreparedExec,
};

fn binary(cmd: &str) -> ResolvedBinary {
    ResolvedBinary {
        cmd: cmd.to_string(),
        source: BinarySource::Path,
    }
}

#[test]
fn cmdline_match_wins_over_image_name() {
    let config_dir = r"C:\Users\rimyn\AppData\Roaming\coclash";
    assert!(matches_mihomo_info(
        "mihomo-windows-amd64.exe",
        r#""C:\...\mihomo-windows-amd64.exe" -d C:\Users\rimyn\AppData\Roaming\coclash"#,
        &binary("mihomo.exe"),
        config_dir,
    ));
}

#[test]
fn image_name_fallback() {
    let config_dir = r"C:\Users\rimyn\AppData\Roaming\coclash";
    assert!(!matches_mihomo_info(
        "other.exe",
        r"C:\other\other.exe -d C:\somewhere\else",
        &binary("mihomo.exe"),
        config_dir,
    ));
    assert!(matches_mihomo_info(
        "MIHOMO.EXE",
        "",
        &binary(r"C:\opt\mihomo.exe"),
        config_dir,
    ));
}

#[test]
fn empty_config_dir_does_not_match_everything() {
    let config_dir = "";
    assert!(!matches_mihomo_info("other.exe", "", &binary("mihomo.exe"), config_dir));
}

#[test]
fn name_matches_mihomo_variants() {
    assert!(name_matches("mihomo.exe"));
    assert!(name_matches("MIHOMO-WINDOWS-AMD64.EXE"));
    assert!(!name_matches("other.exe"));
    assert!(!name_matches(""));
}

#[test]
fn parse_netstat_listening_pid() {
    let output = "\
  TCP    127.0.0.1:9090         0.0.0.0:0              LISTENING       3584
  TCP    127.0.0.1:19090        0.0.0.0:0              LISTENING       12868
  TCP    [::]:19090             [::]:0                 LISTENING       12868
  TCP    127.0.0.1:7890         127.0.0.1:52344        ESTABLISHED     1
";
    assert_eq!(parse_netstat_listen_pid(output, 9090), Some(3584));
    assert_eq!(parse_netstat_listen_pid(output, 19090), Some(12868));
    assert_eq!(parse_netstat_listen_pid(output, 7890), None);
    assert_eq!(parse_netstat_listen_pid("", 9090), None);
}

#[test]
fn netstat_first_listening_line_decides() {
    let output = "  tcp  0.0.0.0:80  0.0.0.0:0  LISTENING  notanumber\r\n  TCP  0.0.0.0:80  0.0.0.0:0  LISTENING  7\r\n";
    assert_eq!(parse_netstat_listen_pid(output, 80), None);
    assert_eq!(parse_netstat_listen_pid("  TCP  0.0.0.0:80  0.0.0.0:0  LISTENING  7\r\n", 80), Some(7));
}

#[test]
fn temp_prepared_source_and_cleanup() {
    let prepared = PreparedExec::Temp {
        path: r"C:\Temp\coclash-1\mihomo.exe".to_string(),
        dir: r"C:\Temp\coclash-1".to_string(),
    };
    assert_eq!(prepared.path(), r"C:\Temp\coclash-1\mihomo.exe");
    assert!(prepared.cleanup_dir().is_some());
    assert!(prepared.source().to_string().contains("临时文件"));

    let cache = PreparedExec::Cache(r"C:\Cache\mihomo.exe".to_string());
    assert!(cache.cleanup_dir().is_none());
    assert!(cache.source().to_string().contains("磁盘文件"));
}

#[test]
fn image_name_is_last_component() {
    assert_eq!(mihomo_image_name(r"C:\opt\mihomo.exe"), "mihomo.exe");
    assert_eq!(mihomo_image_name("/usr/bin/mihomo"), "mihomo");
    assert_eq!(mihomo_image_name("mihomo"), "mihomo");
    assert_eq!(mihomo_image_name("dir/"), "dir/");
}

#[test]
fn ctrl_port_forms() {
    assert_eq!(ctrl_port("127.0.0.1:9090"), Some(9090));
    assert_eq!(ctrl_port(":9090"), Some(9090));
    assert_eq!(ctrl_port("[::1]:19090"), Some(19090));
    assert_eq!(ctrl_port("localhost"), None);
    assert_eq!(ctrl_port("host:99999"), None);
    assert_eq!(ctrl_port("host:"), None);
    assert_eq!(ctrl_port("host:+80"), Some(80));
}

#[test]
fn status_follows_port() {
    assert_eq!(detect_status(true), MihomoStatus::Running(0));
    assert_eq!(detect_status(false), MihomoStatus::Stopped);
}

#[test]
fn start_and_stop_decisions() {
    assert!(start_mihomo(true, false).is_ok());
    assert_eq!(
        start_mihomo(true, true).unwrap_err().to_string(),
        "端口已被 mihomo 占用，未启动新进程"
    );
    assert_eq!(start_mihomo(false, false).unwrap_err().to_string(), "无法获取配置目录");
    assert_eq!(stop_mihomo(Some(42)).unwrap(), 42);
    assert_eq!(
        stop_mihomo(None).unwrap_err().to_string(),
        "未找到监听控制端口的 mihomo 进程"
    );
}

#[test]
fn pid_range() {
    assert!(!pid_in_range(0));
    assert!(pid_in_range(1));
    assert!(pid_in_range(i32::MAX as u32));
    assert!(!pid_in_range(u32::MAX));
}

#[test]
fn pidfile_forms() {
    assert_eq!(pidfile_path("/cfg"), "/cfg/mihomo.pid");
    assert_eq!(pidfile_path("/cfg/"), "/cfg/mihomo.pid");
    assert_eq!(parse_pidfile("1234\n"), Some((1234, false)));
    assert_eq!(parse_pidfile(" 77 : 1 "), Some((77, true)));
    assert_eq!(parse_pidfile("77:0"), Some((77, false)));
    assert_eq!(parse_pidfile("x:1"), None);
    assert_eq!(parse_pidfile(""), None);
}

#[test]
fn proc_net_tcp_inode() {
    let content = "  sl  local_address rem_address   st tx_queue rx_queue tr tm->when retrnsmt   uid  timeout inode\n   0: 0100007F:2382 00000000:0000 0A 00000000:00000000 00:00000000 00000000  1000        0 45678 1 0000000000000000 100 0 0 10 0\n   1: 0100007F:1EDC 00000000:0000 01 00000000:00000000 00:00000000 00000000  1000        0 999 1\n";
    assert_eq!(socket_inode_for_port(content, 9090).as_deref(), Some("45678"));
    assert_eq!(socket_inode_for_port(content, 7900), None);
    assert_eq!(socket_inode_for_port("", 9090), None);
}

#[test]
fn cap_eff_and_warning() {
    let status = "Name:\tmihomo\nCapInh:\t0000000000000000\nCapEff:\t0000000000003000\n";
    assert_eq!(cap_eff_of(status), Some(0x3000));
    assert_eq!(cap_eff_of("Name:\tx\n"), None);
    assert!(!tun_caps_missing(0x3000));
    assert!(tun_caps_missing(0x1000));
    assert_eq!(tun_capability_warning(5, 0x3000, None), None);
    assert_eq!(
        tun_capability_warning(5, 0, None).unwrap(),
        "mihomo(PID=5)缺少CAP_NET_ADMIN/CAP_NET_RAW，TUN可能起不来。请用 setcap 给 mihomo 授予 CAP_NET_ADMIN/CAP_NET_RAW"
    );
    assert_eq!(
        tun_capability_warning(5, 0, Some("/c/mihomo")).unwrap(),
        "mihomo(PID=5)缺少CAP_NET_ADMIN/CAP_NET_RAW，TUN可能起不来。请执行一次: sudo setcap cap_net_admin,cap_net_raw+eip /c/mihomo"
    );
}

#[test]
fn to_wide_is_nul_terminated_utf16() {
    assert_eq!(to_wide(""), vec![0u16]);
    assert_eq!(to_wide("A中"), vec![0x41, 0x4E2D, 0]);
    assert_eq!(to_wide("😀"), vec![0xD83D, 0xDE00, 0]);
    let s = "mihomo -d C:\\配置\\coclash 🚀";
    let expected: Vec<u16> = s.encode_utf16().chain(std::iter::once(0)).collect();
    assert_eq!(to_wide(s), expected);
}
