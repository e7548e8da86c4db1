use portal_watch::login::{
    auth_chain_referer, bootstrap_params, credential_form, encrypt_password, engine_query,
    finalize_form, finalize_session, handshake_start, handshake_step, sso_login_referer,
    token_params, Error, HandshakeAction, HandshakeEvent, HandshakeState,
};

#[test]
fn encrypted_password_has_ciphertext_length() {
    let c = encrypt_password("hunter2").expect("encryption should succeed");
    assert_eq!(c.len(), 172);
}

#[test]
fn encrypting_twice_still_verifies_by_shape() {
    // The padding is random, so ciphertexts differ call to call; only the
    // shape is checked.
    let a = encrypt_password("hunter2").unwrap();
    let b = encrypt_password("hunter2").unwrap();
    assert_eq!(a.len(), 172);
    assert_eq!(b.len(), 172);
}

#[test]
fn over_long_password_is_refused() {
    let long = "x".repeat(200);
    assert!(encrypt_password(&long).is_err());
}

#[test]
fn payload_limit_is_exact() {
    let fits = "x".repeat(117);
    assert_eq!(encrypt_password(&fits).unwrap().len(), 172);
    let too_long = "x".repeat(118);
    assert!(encrypt_password(&too_long).is_err());
}

#[test]
fn bootstrap_without_query_fails() {
    match bootstrap_params(None) {
        Err(Error::NoUrlParams) => {}
        other => panic!("expected NoUrlParams, got {:?}", other),
    }
}

#[test]
fn bootstrap_missing_parameters() {
    match bootstrap_params(Some("authnLcKey=xyz")) {
        Err(Error::UrlParamsNotFound { name }) => assert_eq!(name, "entityId"),
        other => panic!("expected missing entityId, got {:?}", other),
    }
    match bootstrap_params(Some("entityId=42")) {
        Err(Error::UrlParamsNotFound { name }) => assert_eq!(name, "authnLcKey"),
        other => panic!("expected missing authnLcKey, got {:?}", other),
    }
}

#[test]
fn bootstrap_extracts_both_parameters() {
    let (e, k) = bootstrap_params(Some("entityId=42&authnLcKey=xyz")).unwrap();
    assert_eq!(e, "42");
    assert_eq!(k, "xyz");
}

#[test]
fn token_params_extracts_triple() {
    let (t, u, s) = token_params(Some("token=tt&uid=uu&ts=1700000000")).unwrap();
    assert_eq!(t, "tt");
    assert_eq!(u, "uu");
    assert_eq!(s, "1700000000");
}

#[test]
fn token_params_reports_first_missing_name() {
    match token_params(Some("uid=uu&ts=1")) {
        Err(Error::UrlParamsNotFound { name }) => assert_eq!(name, "token"),
        other => panic!("expected missing token, got {:?}", other),
    }
    match token_params(Some("token=tt&ts=1")) {
        Err(Error::UrlParamsNotFound { name }) => assert_eq!(name, "uid"),
        other => panic!("expected missing uid, got {:?}", other),
    }
    match token_params(Some("token=tt&uid=uu")) {
        Err(Error::UrlParamsNotFound { name }) => assert_eq!(name, "ts"),
        other => panic!("expected missing ts, got {:?}", other),
    }
    match token_params(None) {
        Err(Error::UrlParamsNotFound { name }) => assert_eq!(name, "token"),
        other => panic!("expected missing token, got {:?}", other),
    }
}

#[test]
fn finalize_reads_nested_session_id() {
    let body = "{\"code\":200,\"data\":{\"sessionid\":\"s-123\",\"user\":\"u\"}}";
    assert_eq!(finalize_session(body).unwrap(), "s-123");
}

#[test]
fn finalize_without_field_fails() {
    for body in ["{}", "{\"data\":{}}", "{\"data\":{\"sessionid\":7}}", "not json"] {
        match finalize_session(body) {
            Err(Error::FieldNotFound { name }) => assert_eq!(name, "data.sessionid"),
            other => panic!("expected FieldNotFound for {body:?}, got {other:?}"),
        }
    }
}

#[test]
fn credential_form_lists_expected_pairs() {
    let form = credential_form("alice", "CIPHER", "key-1");
    let expected = vec![
        ("j_username", "alice"),
        ("j_password", "CIPHER"),
        ("j_checkcode", "请输入验证码"),
        ("op", "login"),
        ("spAuthChainCode", "4c1eb8ec14fa4e8ba0f31188dbf88cdd"),
        ("authnLcKey", "key-1"),
    ];
    let got: Vec<(&str, &str)> = form.iter().map(|p| (p.0.as_str(), p.1.as_str())).collect();
    assert_eq!(got, expected);
}

#[test]
fn engine_query_and_finalize_form() {
    let q = engine_query("42", "xyz");
    assert_eq!(q[0], ("entityId".to_string(), "42".to_string()));
    assert_eq!(
        q[1],
        (
            "currentAuth".to_string(),
            "urn_oasis_names_tc_SAML_2.0_ac_classes_BAMUsernamePassword".to_string()
        )
    );
    assert_eq!(q[2], ("authnLcKey".to_string(), "xyz".to_string()));

    let f = finalize_form("tt", "uu", "99");
    assert_eq!(
        f,
        vec![
            ("token".to_string(), "tt".to_string()),
            ("ts".to_string(), "99".to_string()),
            ("uid".to_string(), "uu".to_string()),
        ]
    );
}

#[test]
fn referers_name_the_correlation_values() {
    assert_eq!(
        auth_chain_referer("42", "xyz"),
        "https://iam.tongji.edu.cn/idp/authcenter/ActionAuthChain?entityId=42&authnLcKey=xyz"
    );
    assert_eq!(
        sso_login_referer("tt", "uu", "99"),
        "https://1.tongji.edu.cn/ssologin?token=tt&uid=uu&ts=99"
    );
}

#[test]
fn handshake_happy_path() {
    let (s, a) = handshake_start();
    assert!(matches!(s, HandshakeState::Start));
    assert!(matches!(a, HandshakeAction::FetchBootstrap));

    let (s, a) = handshake_step(
        s,
        HandshakeEvent::BootstrapDone {
            result: Ok(Some("entityId=42&authnLcKey=xyz".to_string())),
        },
    );
    match &s {
        HandshakeState::ParamsExtracted { entity_id, authn_lc_key } => {
            assert_eq!(entity_id, "42");
            assert_eq!(authn_lc_key, "xyz");
        }
        other => panic!("unexpected state {other:?}"),
    }
    assert!(matches!(a, HandshakeAction::SubmitPrimary));

    let (s, a) = handshake_step(s, HandshakeEvent::PrimaryDone { result: Ok(()) });
    assert!(matches!(s, HandshakeState::CredentialsSubmitted { .. }));
    assert!(matches!(a, HandshakeAction::SubmitEngine));

    let (s, a) = handshake_step(
        s,
        HandshakeEvent::EngineDone { result: Ok(Some("token=tt&uid=uu&ts=99".to_string())) },
    );
    match &s {
        HandshakeState::Finalizing { token, uid, ts } => {
            assert_eq!(token, "tt");
            assert_eq!(uid, "uu");
            assert_eq!(ts, "99");
        }
        other => panic!("unexpected state {other:?}"),
    }
    assert!(matches!(a, HandshakeAction::Finalize));

    let (s, a) = handshake_step(
        s,
        HandshakeEvent::FinalizeDone {
            result: Ok("{\"data\":{\"sessionid\":\"s-123\"}}".to_string()),
        },
    );
    match &s {
        HandshakeState::TokenExtracted { session_id } => assert_eq!(session_id, "s-123"),
        other => panic!("unexpected state {other:?}"),
    }
    assert!(matches!(a, HandshakeAction::Stop));
}

#[test]
fn handshake_without_query_fails_before_credentials() {
    // The bootstrap response URL has no query string: the attempt fails with
    // a handshake-shape error and the machine never asks for a credential
    // submission.
    let (s, _) = handshake_start();
    let (s, a) = handshake_step(s, HandshakeEvent::BootstrapDone { result: Ok(None) });
    match s {
        HandshakeState::Failed { error: Error::NoUrlParams } => {}
        other => panic!("expected NoUrlParams failure, got {other:?}"),
    }
    assert!(matches!(a, HandshakeAction::Stop));
}

#[test]
fn handshake_transport_failure_propagates() {
    let (s, _) = handshake_start();
    let (s, a) = handshake_step(
        s,
        HandshakeEvent::BootstrapDone { result: Err("connection refused".to_string()) },
    );
    match s {
        HandshakeState::Failed { error: Error::Transport { message } } => {
            assert_eq!(message, "connection refused")
        }
        other => panic!("expected transport failure, got {other:?}"),
    }
    assert!(matches!(a, HandshakeAction::Stop));
}
