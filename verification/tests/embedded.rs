use coclash::embedded::{can_reuse, check_size, decompress, decompress_embedded, ensure_extracted, exe_name, short_sha};
use coclash::error::Error;
use std::io::Write;

#[test]
fn test_stub_reports_not_embedded() {
    let err = ensure_extracted().unwrap_err().to_string();
    assert!(err.contains("未嵌入"), "stub 报错应说明未嵌入: {err}");
    assert!(decompress_embedded().is_err());
}

#[test]
fn test_bad_gz_errors() {
    assert!(decompress(b"not-gzip").is_err());
    assert!(matches!(decompress(b"not-gzip"), Err(Error::Io(_))));
}

#[test]
fn decompress_round_trip() {
    let mut enc = flate2::write::GzEncoder::new(Vec::new(), flate2::Compression::fast());
    enc.write_all(b"fake-mihomo-binary").unwrap();
    let gz = enc.finish().unwrap();
    assert_eq!(decompress(&gz).unwrap(), b"fake-mihomo-binary".to_vec());
}

#[test]
fn size_and_names() {
    assert!(check_size(10, 10).is_ok());
    assert_eq!(
        check_size(9, 10).unwrap_err().to_string(),
        "内嵌 mihomo 解压大小不符：期望 10，实际 9"
    );
    assert!(can_reuse(Some(5), 5));
    assert!(!can_reuse(Some(4), 5));
    assert!(!can_reuse(None, 5));
    assert_eq!(short_sha("0123456789abcdef"), "01234567");
    assert_eq!(exe_name(), "mihomo");
}
