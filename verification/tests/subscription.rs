use coclash::subscription::{get_provider_name, parse_content_disposition, percent_decode, provider_name_from};

#[test]
fn percent_decoding() {
    assert_eq!(percent_decode("a%20b"), "a b");
    assert_eq!(percent_decode("%E4%B8%AD"), "中");
    assert_eq!(percent_decode("100%"), "100%");
    assert_eq!(percent_decode("%zz"), "%zz");
    assert_eq!(percent_decode("%+4x"), "\u{4}x");
    assert_eq!(percent_decode("%FF"), "");
}

#[test]
fn content_disposition_names() {
    assert_eq!(
        parse_content_disposition("attachment; filename*=UTF-8''%E6%9C%BA%E5%9C%BA"),
        Some("机场".to_string())
    );
    assert_eq!(
        parse_content_disposition("attachment; FILENAME=\"my sub\""),
        Some("my sub".to_string())
    );
    assert_eq!(
        parse_content_disposition("attachment; filename=a.yaml; filename*=UTF-8''b"),
        Some("b".to_string())
    );
    assert_eq!(parse_content_disposition("inline"), None);
    assert_eq!(parse_content_disposition(""), None);
}

#[test]
fn provider_name_choices() {
    assert_eq!(
        provider_name_from(Some("example.com".into()), Err("timeout".into())),
        Ok("example.com".to_string())
    );
    assert_eq!(
        provider_name_from(None, Err("timeout".into())),
        Err("请求失败: timeout".to_string())
    );
    assert_eq!(
        provider_name_from(Some("h".into()), Ok("attachment; filename=x".into())),
        Ok("x".to_string())
    );
    assert_eq!(provider_name_from(None, Ok(String::new())), Err("无法解析订阅名称".to_string()));
}

#[test]
fn provider_name_uses_url_host() {
    assert_eq!(
        get_provider_name("https://sub.example.com/path?x=1", Err("down".into())),
        Ok("sub.example.com".to_string())
    );
    assert_eq!(
        get_provider_name("not a url", Err("down".into())),
        Err("请求失败: down".to_string())
    );
}
