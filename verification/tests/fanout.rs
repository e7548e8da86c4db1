use portal_watch::client::{Lecture, Notice};
use portal_watch::notice_adapter::{
    aggregate_outcomes, backend_name, error_report_message, is_configured, should_attempt,
    BackendKind, FanoutConfig, LocalAdapter, SC3Adapter, SCTAdapter,
};

fn config(enabled: &[&str], sct_key: Option<&str>, sc3_key: Option<&str>) -> FanoutConfig {
    FanoutConfig {
        enabled: enabled.iter().map(|s| s.to_string()).collect(),
        sct_key: sct_key.map(|s| s.to_string()),
        sc3_key: sc3_key.map(|s| s.to_string()),
    }
}

fn notice(title: &str, url: &str) -> Notice {
    Notice { title: title.to_string(), url: url.to_string() }
}

fn lecture(id: &str, title: &str) -> Lecture {
    Lecture {
        title: title.to_string(),
        level: "campus".to_string(),
        time: "2099-01-01 14:00".to_string(),
        id: id.to_string(),
        speaker: "someone".to_string(),
    }
}

#[test]
fn configuration_match_ignores_case() {
    let enabled = vec!["Local".to_string(), "sct".to_string()];
    assert!(is_configured("local", &enabled));
    assert!(is_configured("SCT", &enabled));
    assert!(!is_configured("SC3", &enabled));
}

#[test]
fn disabled_backend_attempts_nothing() {
    let cfg = config(&["sct"], Some("k"), Some("k"));
    assert!(!should_attempt(BackendKind::Local, &cfg, 3));
    assert!(should_attempt(BackendKind::Sct, &cfg, 3));
}

#[test]
fn empty_payload_attempts_nothing() {
    let cfg = config(&["local", "sct", "sc3"], Some("k"), Some("k"));
    assert!(!should_attempt(BackendKind::Local, &cfg, 0));
    assert!(!should_attempt(BackendKind::Sct, &cfg, 0));
    assert!(!should_attempt(BackendKind::Sc3, &cfg, 0));
}

#[test]
fn missing_key_attempts_nothing() {
    let cfg = config(&["local", "sct", "sc3"], None, Some("k"));
    assert!(should_attempt(BackendKind::Local, &cfg, 1));
    assert!(!should_attempt(BackendKind::Sct, &cfg, 1));
    assert!(should_attempt(BackendKind::Sc3, &cfg, 1));
}

#[test]
fn backend_names() {
    assert_eq!(backend_name(BackendKind::Local), "local");
    assert_eq!(backend_name(BackendKind::Sct), "SCT");
    assert_eq!(backend_name(BackendKind::Sc3), "SC3");
}

#[test]
fn all_successes_aggregate_to_ok() {
    let outcomes = vec![(BackendKind::Local, None), (BackendKind::Sct, None)];
    assert!(aggregate_outcomes(outcomes).is_ok());
    assert!(aggregate_outcomes(vec![]).is_ok());
}

#[test]
fn fanout_isolation_scenario() {
    // Three backends: sc3 is disabled, local succeeds, sct fails.  The
    // disabled backend attempts no delivery, the succeeding backend's
    // outcome stands, and the aggregate reports exactly the failure.
    let cfg = config(&["local", "sct"], Some("k"), Some("k"));
    assert!(!should_attempt(BackendKind::Sc3, &cfg, 2));
    assert!(should_attempt(BackendKind::Local, &cfg, 2));
    assert!(should_attempt(BackendKind::Sct, &cfg, 2));

    let outcomes = vec![
        (BackendKind::Local, None),
        (BackendKind::Sct, Some("post failed".to_string())),
    ];
    let errs = aggregate_outcomes(outcomes).unwrap_err();
    assert_eq!(errs.len(), 1);
    assert_eq!(errs[0].backend, BackendKind::Sct);
    assert_eq!(errs[0].message, "post failed");
}

#[test]
fn every_failure_is_reported() {
    let outcomes = vec![
        (BackendKind::Local, Some("no desktop".to_string())),
        (BackendKind::Sct, None),
        (BackendKind::Sc3, Some("timeout".to_string())),
    ];
    let errs = aggregate_outcomes(outcomes).unwrap_err();
    assert_eq!(errs.len(), 2);
    assert_eq!(errs[0].backend, BackendKind::Local);
    assert_eq!(errs[0].message, "no desktop");
    assert_eq!(errs[1].backend, BackendKind::Sc3);
    assert_eq!(errs[1].message, "timeout");
}

#[test]
fn local_messages() {
    let notices = vec![notice("First", "https://example.edu/1"), notice("Second", "u2")];
    let (title, body) = LocalAdapter::notice_message(&notices);
    assert_eq!(title, "学院已发布2条新的通知/公告");
    assert_eq!(body, "- First\n- Second");

    let lectures = vec![lecture("a", "Algebra")];
    let (title, body) = LocalAdapter::lecture_message(&lectures);
    assert_eq!(title, "找到1条新的同济大讲堂");
    assert_eq!(body, "- Algebra");
}

#[test]
fn push_notice_message() {
    let notices = vec![notice("First", "https://example.edu/1"), notice("Second", "u2")];
    let (title, desp, short) = SCTAdapter::notice_message(&notices);
    assert_eq!(title, "学院已发布新的通知/公告");
    assert_eq!(
        desp,
        "# 通知/公告列表\n\n- [First](https://example.edu/1)\n- [Second](u2)"
    );
    assert_eq!(short, "\"First\"等2条通知/公告");
}

#[test]
fn push_lecture_message() {
    let lectures = vec![lecture("a", "Algebra"), lecture("b", "Birds")];
    let (title, desp, short) = SC3Adapter::lecture_message(&lectures);
    assert_eq!(title, "找到新的同济大讲堂");
    assert_eq!(
        desp,
        "|主题|级别|主讲人|时间|\n|:-:|:-:|:-:|:-:|\n|Algebra|campus|someone|2099-01-01 14:00|\n|Birds|campus|someone|2099-01-01 14:00|"
    );
    assert_eq!(short, "\"Algebra\"等2条同济大讲堂");
}

#[test]
fn push_urls_and_tags() {
    assert_eq!(SCTAdapter::push_url("SECRET"), "https://sctapi.ftqq.com/SECRET.send");
    assert_eq!(SC3Adapter::push_url("1234"), "https://1234.push.ft07.com/send");
    assert_eq!(SC3Adapter::notice_tags(), "同济大学|通知");
    assert_eq!(SC3Adapter::lecture_tags(), "同济大学|同济大讲堂");
}

#[test]
fn error_report_text() {
    let (title, body) = error_report_message("2024-05-01 10:00", "something broke");
    assert_eq!(title, "Error report");
    assert_eq!(body, "2024-05-01 10:00\nsomething broke");
}
