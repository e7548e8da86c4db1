use portal_watch::client::{
    contains_id, diff_lectures, get_lecture_date, interpret_envelope, poll_start, poll_step,
    remove_outdated_lectures, today_ordinal, Error, FetchOutcome, Lecture, PollAction, PollEvent,
    PollState,
};
use portal_watch::login;

fn lecture(id: &str, time: &str) -> Lecture {
    Lecture {
        title: format!("title-{id}"),
        level: "campus".to_string(),
        time: time.to_string(),
        id: id.to_string(),
        speaker: "someone".to_string(),
    }
}

#[test]
fn date_parses_from_leading_text() {
    let l = lecture("a", "2099-01-01 14:00");
    let d = get_lecture_date(&l).expect("date should parse");
    let bare = get_lecture_date(&lecture("b", "2099-01-01")).expect("date should parse");
    assert_eq!(d, bare);
}

#[test]
fn unparseable_date_is_none() {
    assert_eq!(get_lecture_date(&lecture("a", "soon")), None);
    assert_eq!(get_lecture_date(&lecture("b", "")), None);
    assert_eq!(get_lecture_date(&lecture("c", "2099-13-40")), None);
}

#[test]
fn identity_is_by_id_alone() {
    let a1 = lecture("a", "2099-01-01");
    let mut a2 = lecture("a", "2000-06-06");
    a2.speaker = "someone else".to_string();
    let b = lecture("b", "2099-01-01");
    assert!(a1 == a2);
    assert!(a1 != b);
}

#[test]
fn outdated_lectures_are_dropped_and_unparseable_kept() {
    let today = today_ordinal();
    let old = vec![
        lecture("past", "2000-01-01"),
        lecture("future", "2099-01-01"),
        lecture("undated", "when we are ready"),
    ];
    let kept = remove_outdated_lectures(old, today);
    let ids: Vec<&str> = kept.iter().map(|l| l.id.as_str()).collect();
    assert_eq!(ids, vec!["future", "undated"]);
}

#[test]
fn diff_example_scenario() {
    // Remembered [{id:"a",date:"2099-01-01"}], fetched [{id:"a"},{id:"b",
    // date:"2099-01-01"}]: only b is new, and the merged set holds a then b.
    let today = today_ordinal();
    let remembered = vec![lecture("a", "2099-01-01")];
    let fetched = vec![lecture("a", ""), lecture("b", "2099-01-01")];
    let delta = diff_lectures(remembered, fetched, today);
    let new_ids: Vec<&str> = delta.new.iter().map(|l| l.id.as_str()).collect();
    let merged_ids: Vec<&str> = delta.merged.iter().map(|l| l.id.as_str()).collect();
    assert_eq!(new_ids, vec!["b"]);
    assert_eq!(merged_ids, vec!["a", "b"]);
    // The remembered record for "a" survives untouched: its time field is
    // the remembered one, not the fetched one.
    assert_eq!(delta.merged[0].time, "2099-01-01");
}

#[test]
fn diff_is_idempotent_for_unexpired_fetches() {
    let today = today_ordinal();
    let remembered = vec![lecture("a", "2099-01-01")];
    let fetched = vec![lecture("a", ""), lecture("b", "2099-01-01"), lecture("c", "nodate")];
    let delta = diff_lectures(remembered, fetched.clone(), today);
    let again = diff_lectures(delta.merged, fetched, today);
    assert!(again.new.is_empty());
}

#[test]
fn diff_expires_remembered_records() {
    let today = today_ordinal();
    let remembered = vec![lecture("past", "2000-01-01"), lecture("future", "2099-01-01")];
    let fetched = vec![lecture("future", "2099-01-01")];
    let delta = diff_lectures(remembered, fetched, today);
    assert!(delta.new.is_empty());
    let merged_ids: Vec<&str> = delta.merged.iter().map(|l| l.id.as_str()).collect();
    assert_eq!(merged_ids, vec!["future"]);
}

#[test]
fn duplicate_ids_in_one_fetch_are_taken_once() {
    let today = today_ordinal();
    let fetched = vec![lecture("b", "2099-01-01"), lecture("b", "2099-01-01")];
    let delta = diff_lectures(vec![], fetched, today);
    let new_ids: Vec<&str> = delta.new.iter().map(|l| l.id.as_str()).collect();
    let merged_ids: Vec<&str> = delta.merged.iter().map(|l| l.id.as_str()).collect();
    assert_eq!(new_ids, vec!["b"]);
    assert_eq!(merged_ids, vec!["b"]);
}

#[test]
fn contains_id_scans_by_key() {
    let v = vec![lecture("a", ""), lecture("b", "")];
    assert!(contains_id(&v, &lecture("a", "other fields differ")));
    assert!(!contains_id(&v, &lecture("c", "")));
}

#[test]
fn poller_retries_once_then_succeeds() {
    let (s, a) = poll_start(Some("cached-token".to_string()));
    match &a {
        PollAction::Fetch { token } => assert_eq!(token, "cached-token"),
        other => panic!("expected fetch, got {other:?}"),
    }

    // First protected call: auth failure status.
    let (s, a) = poll_step(
        s,
        PollEvent::FetchDone { outcome: FetchOutcome::HttpStatus { code: 401 } },
    );
    assert!(matches!(s, PollState::Reauth));
    assert!(matches!(a, PollAction::Authenticate));

    // Re-authentication hands back a fresh token.
    let (s, a) = poll_step(s, PollEvent::AuthDone { result: Ok("fresh-token".to_string()) });
    match &a {
        PollAction::Fetch { token } => assert_eq!(token, "fresh-token"),
        other => panic!("expected fetch, got {other:?}"),
    }

    // Second protected call succeeds: its body and the fresh token come out.
    let (s, a) = poll_step(
        s,
        PollEvent::FetchDone { outcome: FetchOutcome::Success { body: "payload".to_string() } },
    );
    match s {
        PollState::Done { body, token } => {
            assert_eq!(body, "payload");
            assert_eq!(token, "fresh-token");
        }
        other => panic!("expected done, got {other:?}"),
    }
    assert!(matches!(a, PollAction::Finish));
}

#[test]
fn poller_gives_up_after_second_failure() {
    let (s, _) = poll_start(Some("cached-token".to_string()));
    let (s, _) = poll_step(
        s,
        PollEvent::FetchDone { outcome: FetchOutcome::HttpStatus { code: 401 } },
    );
    let (s, _) = poll_step(s, PollEvent::AuthDone { result: Ok("fresh-token".to_string()) });
    let (s, a) = poll_step(
        s,
        PollEvent::FetchDone { outcome: FetchOutcome::HttpStatus { code: 500 } },
    );
    match s {
        PollState::Failed { error: Error::HttpStatus { code } } => assert_eq!(code, 500),
        other => panic!("expected status failure, got {other:?}"),
    }
    // No third call is asked for.
    assert!(matches!(a, PollAction::Finish));
}

#[test]
fn poller_without_cached_token_authenticates_first() {
    let (s, a) = poll_start(None);
    assert!(matches!(s, PollState::NeedAuth));
    assert!(matches!(a, PollAction::Authenticate));
    let (_, a) = poll_step(s, PollEvent::AuthDone { result: Ok("t".to_string()) });
    match a {
        PollAction::Fetch { token } => assert_eq!(token, "t"),
        other => panic!("expected fetch, got {other:?}"),
    }
}

#[test]
fn failed_login_ends_the_poll() {
    let (s, _) = poll_start(None);
    let (s, a) = poll_step(
        s,
        PollEvent::AuthDone { result: Err(login::Error::NoUrlParams) },
    );
    match s {
        PollState::Failed { error: Error::Login { error: login::Error::NoUrlParams } } => {}
        other => panic!("expected login failure, got {other:?}"),
    }
    assert!(matches!(a, PollAction::Finish));
}

#[test]
fn transport_failure_is_not_retried() {
    let (s, _) = poll_start(Some("t".to_string()));
    let (s, a) = poll_step(
        s,
        PollEvent::FetchDone {
            outcome: FetchOutcome::Transport { message: "connection reset".to_string() },
        },
    );
    match s {
        PollState::Failed { error: Error::Transport { message } } => {
            assert_eq!(message, "connection reset")
        }
        other => panic!("expected transport failure, got {other:?}"),
    }
    assert!(matches!(a, PollAction::Finish));
}

#[test]
fn envelope_success_code_hands_records_through() {
    let data = vec![lecture("a", "")];
    let out = interpret_envelope(200, "ok".to_string(), data).unwrap();
    assert_eq!(out.len(), 1);
    assert_eq!(out[0].id, "a");
}

#[test]
fn envelope_other_code_is_an_api_error() {
    match interpret_envelope(403, "denied".to_string(), vec![]) {
        Err(Error::Api { message }) => assert_eq!(message, "denied"),
        other => panic!("expected api error, got {other:?}"),
    }
}
