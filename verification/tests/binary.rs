use coclash::binary::{
    default_mihomo_name, mihomo_windows_candidates, nix_wrapper_path, parse_env_file,
    resolve_mihomo_exe_with, upgrade_path_fallback, BinarySource, ResolvedBinary,
};
use coclash::settings::Settings;

#[test]
fn test_parse_env_file() {
    let map = parse_env_file(
        "# comment\n\nMIHOMO_EXE=/usr/bin/mihomo\nEMPTY=\nQUOTED=\"a b\"\nBADLINE\n",
    );
    assert_eq!(map.get("MIHOMO_EXE").unwrap(), "/usr/bin/mihomo");
    assert_eq!(map.get("QUOTED").unwrap(), "a b");
    assert_eq!(map.get("EMPTY").unwrap(), "");
    assert!(!map.contains_key("BADLINE"));
}

#[test]
fn env_file_later_key_wins_and_quotes() {
    let map = parse_env_file("A=1\r\n A = 2 \nB='x'\nC=\"'y'\"\n=v\n");
    assert_eq!(map.get("A").unwrap(), "2");
    assert_eq!(map.get("B").unwrap(), "x");
    assert_eq!(map.get("C").unwrap(), "y");
    assert_eq!(map.get("").unwrap(), "v");
    assert_eq!(map.len(), 4);
}

fn settings(exe: &str) -> Settings {
    let mut s = Settings::default();
    s.mihomo_exe = exe.to_string();
    s
}

#[test]
fn test_resolve_env_var_wins() {
    let settings = Settings::default();
    let r = resolve_mihomo_exe_with(&settings, Some("/from/env/mihomo".to_string()), None, None);
    assert_eq!(r.cmd, "/from/env/mihomo");
    assert_eq!(r.source, BinarySource::EnvVar);
}

#[test]
fn test_resolve_env_file_wins_over_settings() {
    let settings = settings("C:\\explicit\\mihomo.exe");
    let r = resolve_mihomo_exe_with(
        &settings,
        None,
        Some(("/tmp/app".to_string(), "MIHOMO_EXE=mihomo.exe\n".to_string())),
        None,
    );
    assert_eq!(r.source, BinarySource::EnvFile);
    assert!(r.cmd.contains("mihomo.exe"));
}

#[test]
fn test_resolve_env_file_relative_joins_dir() {
    let settings = Settings::default();
    let r = resolve_mihomo_exe_with(
        &settings,
        None,
        Some(("/tmp/app".to_string(), "MIHOMO_EXE=mihomo.exe\n".to_string())),
        None,
    );
    assert_eq!(r.cmd, "/tmp/app/mihomo.exe");
    assert_eq!(r.source, BinarySource::EnvFile);
}

#[test]
fn resolve_blank_env_var_falls_through() {
    let r = resolve_mihomo_exe_with(
        &settings("/opt/bin/mihomo"),
        Some("   ".to_string()),
        Some(("/app".to_string(), "MIHOMO_EXE=/abs/mihomo\n".to_string())),
        None,
    );
    assert_eq!(r.cmd, "/abs/mihomo");
    assert_eq!(r.source, BinarySource::EnvFile);
}

#[test]
fn test_resolve_settings_explicit_path() {
    let r = resolve_mihomo_exe_with(&settings("/opt/bin/mihomo"), None, None, None);
    assert_eq!(r.cmd, "/opt/bin/mihomo");
    assert_eq!(r.source, BinarySource::Settings);
}

#[test]
fn test_resolve_wrapper_precedes_path() {
    let r = resolve_mihomo_exe_with(
        &Settings::default(),
        None,
        None,
        Some("/run/wrappers/bin/mihomo".to_string()),
    );
    assert_eq!(r.cmd, "/run/wrappers/bin/mihomo");
    assert_eq!(r.source, BinarySource::NixWrapper);
}

#[test]
fn test_resolve_fallback_to_path() {
    let r = resolve_mihomo_exe_with(&Settings::default(), None, None, None);
    assert_eq!(r.source, BinarySource::Path);
    assert!(!r.cmd.is_empty());
    assert_eq!(r.cmd, default_mihomo_name());
    let r = resolve_mihomo_exe_with(&settings("my-mihomo"), None, None, None);
    assert_eq!(r.cmd, "my-mihomo");
    assert_eq!(r.source, BinarySource::Path);
}

#[test]
fn labels() {
    assert_eq!(BinarySource::EnvVar.label(), "环境变量");
    assert_eq!(BinarySource::Path.to_string(), "PATH");
    assert_eq!(BinarySource::CacheFile("/c/m".to_string()).to_string(), "磁盘文件: /c/m");
}

#[test]
fn wrapper_and_fallback_helpers() {
    assert_eq!(nix_wrapper_path(true).as_deref(), Some("/run/wrappers/bin/mihomo"));
    assert_eq!(nix_wrapper_path(false), None);
    let mut r = ResolvedBinary { cmd: "mihomo".to_string(), source: BinarySource::Path };
    upgrade_path_fallback(&mut r);
    assert_eq!(r.cmd, "mihomo");
}

#[test]
fn test_mihomo_windows_candidates_prefers_current_arch() {
    let names = mihomo_windows_candidates("x86_64");
    assert_eq!(names[0], format!("mihomo-windows-{}.exe", "amd64"));
    assert!(names.len() >= 3);
    for a in ["amd64", "arm64", "386"] {
        assert!(names.iter().any(|n| n.ends_with(&format!("{a}.exe"))));
    }
    let c = mihomo_windows_candidates("aarch64");
    assert_eq!(c, vec!["mihomo-windows-arm64.exe", "mihomo-windows-amd64.exe", "mihomo-windows-386.exe"]);
    let c = mihomo_windows_candidates("riscv64");
    assert_eq!(c.len(), 4);
    assert_eq!(c[0], "mihomo-windows-riscv64.exe");
}
