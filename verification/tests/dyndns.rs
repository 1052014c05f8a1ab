use sparko_embedded_std::dyndns::{public_address_text, update_request_url, DynDns2, DynDns2Config, ResolveTask};
use std::str::FromStr;

#[test]
fn address_between_body_tags_after_the_last_space() {
    let body = b"<html><head><title>Current IP Check</title></head><body>Current IP Address: 203.0.113.7</body></html>\r\n";
    assert_eq!(public_address_text(body), "203.0.113.7");
}

#[test]
fn plain_reply_is_trimmed() {
    assert_eq!(public_address_text(b"  198.51.100.1\n"), "198.51.100.1");
}

#[test]
fn reply_without_closing_tag_runs_to_the_end() {
    assert_eq!(public_address_text(b"<body>IP 10.0.0.1"), "10.0.0.1");
}

#[test]
fn reply_that_is_not_utf8() {
    assert_eq!(public_address_text(&[0xff, 0xfe, 0x20]), "utf8");
}

#[test]
fn update_request() {
    assert_eq!(
        update_request_url("https://dyn.example/nic/update", "me", "secret", "home.example.org"),
        "https://dyn.example/nic/update?username=me&password=secret&hostname=home.example.org"
    );
}

fn task() -> ResolveTask {
    ResolveTask::new(DynDns2Config {
        user_name: "me".to_string(),
        password: "pw".to_string(),
        hostname: "h.example".to_string(),
        get_ip_url: "http://ip.example".to_string(),
        update_url: "http://up.example".to_string(),
        upd_req_address: false,
        schedule: croner::Cron::from_str("0 * * * * *").unwrap(),
    })
}

#[test]
fn lookups_are_counted_and_changes_ask_for_an_update() {
    let mut t = task();
    assert_eq!(t.cnt, 0);
    assert_eq!(t.after_lookup(None), None);
    assert_eq!(t.cnt, 0);
    assert_eq!(t.after_lookup(Some(false)), None);
    assert_eq!(t.cnt, 1);
    assert_eq!(
        t.after_lookup(Some(true)),
        Some("http://up.example?username=me&password=pw&hostname=h.example".to_string())
    );
    assert_eq!(t.cnt, 2);
}

#[test]
fn the_feature_keeps_no_state() {
    let _feature: DynDns2 = DynDns2::new();
}
