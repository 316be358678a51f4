use innkeeper::api::{asset_for, log_tail_start, owned_by, preview_width_ok, replace_all, Asset, Error};
use innkeeper::store::{free_port, kind_name, settings_kind, unsigned, SettingsKind, StoreError};

#[test]
fn error_codes_follow_the_status() {
    let code = |status: u16, message: &str| Error(status, message.into()).code();
    assert_eq!(code(400, "x"), "invalid_input");
    assert_eq!(code(401, "x"), "invalid_credentials");
    assert_eq!(code(403, "x"), "forbidden");
    assert_eq!(code(404, "x"), "not_found");
    assert_eq!(code(409, "setup_complete"), "setup_complete");
    assert_eq!(code(409, "Setup complete"), "conflict");
    assert_eq!(code(429, "x"), "rate_limited");
    assert_eq!(code(503, "x"), "unavailable");
    assert_eq!(code(500, "x"), "internal_error");
    assert_eq!(code(418, "x"), "internal_error");
    assert_eq!(Error(429, "x".into()).retry_after(), Some("60"));
    assert_eq!(Error(503, "x".into()).retry_after(), None);
    let internal = Error::internal();
    assert_eq!((internal.0, internal.1.as_str()), (500, "Internal operation failed"));
}

#[test]
fn assets_by_path() {
    assert_eq!(asset_for("/app.js"), Asset::Script);
    assert_eq!(asset_for("/app.css"), Asset::Stylesheet);
    assert_eq!(asset_for("/"), Asset::Document);
    assert_eq!(asset_for("/sessions/abc"), Asset::Document);
    assert_eq!(asset_for(""), Asset::Document);
    assert_eq!(asset_for("/api/sessions"), Asset::NotFound);
    assert_eq!(asset_for("/e/abc/"), Asset::NotFound);
    assert_eq!(asset_for("/api"), Asset::NotFound);
    assert_eq!(asset_for("/apix"), Asset::Document);
    assert_eq!(asset_for("/app.js").content_type(), Some("text/javascript"));
    assert_eq!(asset_for("/app.css").content_type(), Some("text/css"));
    assert_eq!(asset_for("/login").content_type(), Some("text/html; charset=utf-8"));
    assert_eq!(asset_for("/api/x").content_type(), None);
}

#[test]
fn previews_logs_and_labels() {
    assert!(preview_width_ok(1));
    assert!(preview_width_ok(1600));
    assert!(!preview_width_ok(0));
    assert!(!preview_width_ok(1601));
    assert_eq!(log_tail_start(100), 0);
    assert_eq!(log_tail_start(131072), 0);
    assert_eq!(log_tail_start(200_000), 200_000 - 131_072);
    assert!(owned_by(Some("inst"), "inst"));
    assert!(!owned_by(Some("other"), "inst"));
    assert!(!owned_by(None, "inst"));
}

#[test]
fn replacing_text_like_str_replace() {
    assert_eq!(replace_all("it's", "'", "'\"'\"'"), "it'\"'\"'s");
    assert_eq!(replace_all("aaa", "aa", "b"), "ba");
    assert_eq!(replace_all("abc", "", "-"), "-a-b-c-");
    assert_eq!(replace_all("", "x", "y"), "");
    assert_eq!(replace_all("abc", "x", "y"), "abc");
    for (s, from, to) in [("a.b.c", ".", "::"), ("ééé", "é", "e"), ("xyx", "x", "")] {
        assert_eq!(replace_all(s, from, to), s.replace(from, to));
    }
}

#[test]
fn ports_go_to_the_lowest_free_one() {
    assert_eq!(free_port(&[]), Some(19500));
    assert_eq!(free_port(&[19500, 19502]), Some(19501));
    assert_eq!(free_port(&[19501, 80]), Some(19500));
    let all: Vec<u16> = (19500..20000).collect();
    assert_eq!(free_port(&all), None);
    assert_eq!(free_port(&all[1..]), Some(19500));
    let mut most: Vec<u16> = (19500..20000).collect();
    most.retain(|p| *p != 19999);
    assert_eq!(free_port(&most), Some(19999));
}

#[test]
fn stored_rows_read_back() {
    for kind in [SettingsKind::Desired, SettingsKind::Applied, SettingsKind::Launching] {
        assert_eq!(settings_kind(kind_name(kind)), Ok(kind));
    }
    assert_eq!(kind_name(SettingsKind::Launching), "launching");
    assert_eq!(settings_kind("other"), Err(StoreError::UnknownSettingsKind));
    assert_eq!(unsigned(5), Ok(5));
    assert_eq!(unsigned(-1), Err(StoreError::NegativeNumber));
    assert_eq!(StoreError::MissingDesiredSettings.message(), "Session has no desired settings");
}
