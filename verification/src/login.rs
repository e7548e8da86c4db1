//! The single-sign-on handshake: a fixed sequence of requests that exchanges
//! credentials for a session id.  The decisions — which correlation
//! parameters to pull out of each redirect, what to submit where next, and
//! when the attempt has failed — live here as a verified state machine; the
//! requests themselves are performed by the calling workflow, which feeds
//! each outcome back in as an event.

use base64::Engine;
use rsa::pkcs8::DecodePublicKey;
use vstd::prelude::*;
use vstd::string::*;
use crate::text::query_param;

verus! {

/// Why a login attempt failed.
#[derive(Debug)]
pub enum Error {
    /// The network or HTTP layer failed; carries the transport's own words.
    Transport { message: String },
    /// The embedded RSA public key did not decode.
    RsaKeyDecode { message: String },
    /// Encrypting the password failed (over-long payload, or the generator).
    RsaEncrypt { message: String },
    /// The bootstrap response URL carried no query string at all.
    NoUrlParams,
    /// A correlation parameter was missing from a redirect URL.
    UrlParamsNotFound { name: String },
    /// The finalize response body lacked the expected field.
    FieldNotFound { name: String },
}

pub open spec fn rsa_pub_key_pem_spec() -> Seq<char> {
    "-----BEGIN PUBLIC KEY-----
MIGfMA0GCSqGSIb3DQEBAQUAA4GNADCBiQKBgQC9t16RqQWUE/J1IyOfoNHc4r/h
6RPnXcWTJ4IbhQVUsEqMMm65F0hiytAgozXmVw68yPJywbpblDrx9zl1wdRcdHCo
UvmPdr9/oCQtpQyVc7BXZIN6wJlD6MTeMeni+N0toNPxfXjiAawjNHGZZuT8wQpN
EMwsVyJ/lonXaVdGZwIDAQAB
-----END PUBLIC KEY-----"@
}

/// The identity provider's fixed public key, in PEM form.
pub fn rsa_pub_key_pem() -> (r: &'static str)
    ensures
        r@ == rsa_pub_key_pem_spec(),
{
    "-----BEGIN PUBLIC KEY-----
MIGfMA0GCSqGSIb3DQEBAQUAA4GNADCBiQKBgQC9t16RqQWUE/J1IyOfoNHc4r/h
6RPnXcWTJ4IbhQVUsEqMMm65F0hiytAgozXmVw68yPJywbpblDrx9zl1wdRcdHCo
UvmPdr9/oCQtpQyVc7BXZIN6wJlD6MTeMeni+N0toNPxfXjiAawjNHGZZuT8wQpN
EMwsVyJ/lonXaVdGZwIDAQAB
-----END PUBLIC KEY-----"
}

/// Relies on rsa::RsaPublicKey::from_public_key_pem and
/// RsaPublicKey::encrypt with Pkcs1v15Encrypt under the operating system's
/// random generator, and on base64's standard-alphabet Engine::encode.  The
/// pinned key parses and has a 1024-bit modulus, so a ciphertext is 128
/// bytes — 172 characters in padded base64.  The length check in the
/// padding step is the encryption's only failure gate: a message of at most
/// 128 - 11 bytes is padded and encrypted, a longer one is refused.  The
/// padding is random, so nothing more is stated of the ciphertext.
#[verifier::external_body]
fn rsa_encrypt_base64(pem: &str, password: &str) -> (r: Result<String, Error>)
    requires
        pem@ == rsa_pub_key_pem_spec(),
    ensures
        r matches Ok(c) ==> c@.len() == 172,
        password.spec_bytes().len() <= 117 ==> r is Ok,
        password.spec_bytes().len() > 117 ==> r is Err,
{
    let key = match rsa::RsaPublicKey::from_public_key_pem(pem) {
        Ok(key) => key,
        Err(e) => return Err(Error::RsaKeyDecode { message: e.to_string() }),
    };
    let mut rng = rand::rngs::OsRng;
    match key.encrypt(&mut rng, rsa::Pkcs1v15Encrypt, password.as_bytes()) {
        Ok(c) => Ok(base64::engine::general_purpose::STANDARD.encode(&c)),
        Err(e) => Err(Error::RsaEncrypt { message: e.to_string() }),
    }
}

/// Encrypts the password under the provider's embedded RSA key for the login
/// form: a password within the key's payload limit of 117 bytes yields 172
/// characters of base64, a longer one fails.
pub fn encrypt_password(password: &str) -> (r: Result<String, Error>)
    ensures
        r matches Ok(c) ==> c@.len() == 172,
        password.spec_bytes().len() <= 117 ==> r is Ok,
        password.spec_bytes().len() > 117 ==> r is Err,
{
    rsa_encrypt_base64(rsa_pub_key_pem(), password)
}

/// The string at `data.sessionid` of a JSON document, if the document
/// parses and carries one.
pub uninterp spec fn session_id_in(body: Seq<char>) -> Option<Seq<char>>;

/// Relies on serde_json::from_str and serde_json::Value::{get, as_str}:
/// reads the string under `data.sessionid` of a JSON document.  The result
/// depends on the text alone.
#[verifier::external_body]
fn json_session_id(body: &str) -> (r: Option<String>)
    ensures
        match r {
            Some(s) => session_id_in(body@) == Some(s@),
            None => session_id_in(body@) is None,
        },
{
    match serde_json::from_str::<serde_json::Value>(body) {
        Ok(v) => match v.get("data") {
            Some(data) => match data.get("sessionid") {
                Some(field) => match field.as_str() {
                    Some(s) => Some(s.to_string()),
                    None => None,
                },
                None => None,
            },
            None => None,
        },
        Err(_) => None,
    }
}

/// Pulls the two correlation parameters out of the bootstrap redirect's
/// query string: the whole attempt fails when the response URL carried no
/// query at all, or when either parameter is absent.
pub fn bootstrap_params(redirect_query: Option<&str>) -> (r: Result<(String, String), Error>)
    ensures
        match redirect_query {
            None => r matches Err(Error::NoUrlParams),
            Some(q) => match (query_param(q@, "entityId"@), query_param(q@, "authnLcKey"@)) {
                (Some(e), Some(k)) => r matches Ok(p) && p.0@ == e && p.1@ == k,
                (None, _) => r matches Err(Error::UrlParamsNotFound { name }) && name@
                    == "entityId"@,
                (Some(_), None) => r matches Err(Error::UrlParamsNotFound { name }) && name@
                    == "authnLcKey"@,
            },
        },
{
    let q = match redirect_query {
        Some(q) => q,
        None => {
            return Err(Error::NoUrlParams);
        },
    };
    let entity_id = match crate::text::extract_query_param(q, "entityId") {
        Some(e) => e,
        None => {
            return Err(Error::UrlParamsNotFound { name: String::from_str("entityId") });
        },
    };
    let authn_lc_key = match crate::text::extract_query_param(q, "authnLcKey") {
        Some(k) => k,
        None => {
            return Err(Error::UrlParamsNotFound { name: String::from_str("authnLcKey") });
        },
    };
    Ok((entity_id, authn_lc_key))
}

/// Pulls `token`, `uid` and `ts` out of the engine response's redirect query
/// string; a missing query counts as a missing `token`.  The three values
/// are taken raw, as `query_param` reads them: the provider issues them as
/// plain hex and digits, so no percent-decoding is applied, and a value that
/// did arrive percent-encoded would be passed on as it stands.
pub fn token_params(redirect_query: Option<&str>) -> (r: Result<(String, String, String), Error>)
    ensures
        match redirect_query {
            None => r matches Err(Error::UrlParamsNotFound { name }) && name@ == "token"@,
            Some(q) => match (
                query_param(q@, "token"@),
                query_param(q@, "uid"@),
                query_param(q@, "ts"@),
            ) {
                (Some(t), Some(u), Some(s)) => r matches Ok(p) && p.0@ == t && p.1@ == u && p.2@
                    == s,
                (None, _, _) => r matches Err(Error::UrlParamsNotFound { name }) && name@
                    == "token"@,
                (Some(_), None, _) => r matches Err(Error::UrlParamsNotFound { name }) && name@
                    == "uid"@,
                (Some(_), Some(_), None) => r matches Err(Error::UrlParamsNotFound { name })
                    && name@ == "ts"@,
            },
        },
{
    let q = match redirect_query {
        Some(q) => q,
        None => {
            return Err(Error::UrlParamsNotFound { name: String::from_str("token") });
        },
    };
    let token = match crate::text::extract_query_param(q, "token") {
        Some(t) => t,
        None => {
            return Err(Error::UrlParamsNotFound { name: String::from_str("token") });
        },
    };
    let uid = match crate::text::extract_query_param(q, "uid") {
        Some(u) => u,
        None => {
            return Err(Error::UrlParamsNotFound { name: String::from_str("uid") });
        },
    };
    let ts = match crate::text::extract_query_param(q, "ts") {
        Some(s) => s,
        None => {
            return Err(Error::UrlParamsNotFound { name: String::from_str("ts") });
        },
    };
    Ok((token, uid, ts))
}

/// Reads the session id out of the finalize response body.
pub fn finalize_session(body: &str) -> (r: Result<String, Error>)
    ensures
        match session_id_in(body@) {
            Some(s) => r matches Ok(sid) && sid@ == s,
            None => r matches Err(Error::FieldNotFound { name }) && name@ == "data.sessionid"@,
        },
{
    match json_session_id(body) {
        Some(sid) => Ok(sid),
        None => Err(Error::FieldNotFound { name: String::from_str("data.sessionid") }),
    }
}

/// The credential form submitted to both auth endpoints: username, encrypted
/// password, the fixed no-CAPTCHA placeholder, the operation, the provider's
/// auth chain code, and the correlation key.
pub open spec fn credential_form_spec(
    username: Seq<char>,
    encrypted_password: Seq<char>,
    authn_lc_key: Seq<char>,
) -> Seq<(Seq<char>, Seq<char>)> {
    seq![
        ("j_username"@, username),
        ("j_password"@, encrypted_password),
        ("j_checkcode"@, "\u{8bf7}\u{8f93}\u{5165}\u{9a8c}\u{8bc1}\u{7801}"@),
        ("op"@, "login"@),
        ("spAuthChainCode"@, "4c1eb8ec14fa4e8ba0f31188dbf88cdd"@),
        ("authnLcKey"@, authn_lc_key),
    ]
}

/// Builds the credential form, as `credential_form_spec` describes.
pub fn credential_form(username: &str, encrypted_password: &str, authn_lc_key: &str) -> (form: Vec<
    (String, String),
>)
    ensures
        form.deep_view() == credential_form_spec(username@, encrypted_password@, authn_lc_key@),
{
    let mut form: Vec<(String, String)> = Vec::new();
    form.push((String::from_str("j_username"), String::from_str(username)));
    form.push((String::from_str("j_password"), String::from_str(encrypted_password)));
    form.push(
        (
            String::from_str("j_checkcode"),
            String::from_str("\u{8bf7}\u{8f93}\u{5165}\u{9a8c}\u{8bc1}\u{7801}"),
        ),
    );
    form.push((String::from_str("op"), String::from_str("login")));
    form.push(
        (
            String::from_str("spAuthChainCode"),
            String::from_str("4c1eb8ec14fa4e8ba0f31188dbf88cdd"),
        ),
    );
    form.push((String::from_str("authnLcKey"), String::from_str(authn_lc_key)));
    proof {
        assert(form.deep_view() =~= credential_form_spec(
            username@,
            encrypted_password@,
            authn_lc_key@,
        ));
    }
    form
}

/// The query parameters for the engine endpoint: the entity, the fixed
/// username-and-password auth class, and the correlation key.
pub open spec fn engine_query_spec(entity_id: Seq<char>, authn_lc_key: Seq<char>) -> Seq<
    (Seq<char>, Seq<char>),
> {
    seq![
        ("entityId"@, entity_id),
        ("currentAuth"@, "urn_oasis_names_tc_SAML_2.0_ac_classes_BAMUsernamePassword"@),
        ("authnLcKey"@, authn_lc_key),
    ]
}

/// Builds the engine endpoint's query, as `engine_query_spec` describes.
pub fn engine_query(entity_id: &str, authn_lc_key: &str) -> (q: Vec<(String, String)>)
    ensures
        q.deep_view() == engine_query_spec(entity_id@, authn_lc_key@),
{
    let mut q: Vec<(String, String)> = Vec::new();
    q.push((String::from_str("entityId"), String::from_str(entity_id)));
    q.push(
        (
            String::from_str("currentAuth"),
            String::from_str("urn_oasis_names_tc_SAML_2.0_ac_classes_BAMUsernamePassword"),
        ),
    );
    q.push((String::from_str("authnLcKey"), String::from_str(authn_lc_key)));
    proof {
        assert(q.deep_view() =~= engine_query_spec(entity_id@, authn_lc_key@));
    }
    q
}

/// The form for the finalize endpoint: the three values read from the engine
/// redirect.
pub open spec fn finalize_form_spec(token: Seq<char>, uid: Seq<char>, ts: Seq<char>) -> Seq<
    (Seq<char>, Seq<char>),
> {
    seq![("token"@, token), ("ts"@, ts), ("uid"@, uid)]
}

/// Builds the finalize form, as `finalize_form_spec` describes.
pub fn finalize_form(token: &str, uid: &str, ts: &str) -> (form: Vec<(String, String)>)
    ensures
        form.deep_view() == finalize_form_spec(token@, uid@, ts@),
{
    let mut form: Vec<(String, String)> = Vec::new();
    form.push((String::from_str("token"), String::from_str(token)));
    form.push((String::from_str("ts"), String::from_str(ts)));
    form.push((String::from_str("uid"), String::from_str(uid)));
    proof {
        assert(form.deep_view() =~= finalize_form_spec(token@, uid@, ts@));
    }
    form
}

/// The Referer sent with both credential submissions, naming the auth chain
/// page with its two correlation parameters.
pub fn auth_chain_referer(entity_id: &str, authn_lc_key: &str) -> (r: String)
    ensures
        r@ == "https://iam.tongji.edu.cn/idp/authcenter/ActionAuthChain?entityId="@ + entity_id@
            + "&authnLcKey="@ + authn_lc_key@,
{
    let mut r = String::from_str(
        "https://iam.tongji.edu.cn/idp/authcenter/ActionAuthChain?entityId=",
    );
    r.append(entity_id);
    r.append("&authnLcKey=");
    r.append(authn_lc_key);
    r
}

/// The Referer sent with the finalize request, naming the single-sign-on
/// landing address with the three values read from the engine redirect.
pub fn sso_login_referer(token: &str, uid: &str, ts: &str) -> (r: String)
    ensures
        r@ == "https://1.tongji.edu.cn/ssologin?token="@ + token@ + "&uid="@ + uid@ + "&ts="@
            + ts@,
{
    let mut r = String::from_str("https://1.tongji.edu.cn/ssologin?token=");
    r.append(token);
    r.append("&uid=");
    r.append(uid);
    r.append("&ts=");
    r.append(ts);
    r
}

/// Where a login attempt stands.  The attempt walks
/// `Start → ParamsExtracted → CredentialsSubmitted → Finalizing →
/// TokenExtracted`, or drops into `Failed` from anywhere; `Finalizing` is the
/// moment the redirect triple is in hand and only the finalize call is left.
#[derive(Debug)]
pub enum HandshakeState {
    Start,
    ParamsExtracted { entity_id: String, authn_lc_key: String },
    CredentialsSubmitted { entity_id: String, authn_lc_key: String },
    Finalizing { token: String, uid: String, ts: String },
    TokenExtracted { session_id: String },
    Failed { error: Error },
}

/// The outcome of the request the machine last asked for.  A transport-level
/// failure carries the transport's message; a successful bootstrap or engine
/// call carries the final URL's query string, if it had one; a successful
/// finalize call carries the response body.
#[derive(Debug)]
pub enum HandshakeEvent {
    BootstrapDone { result: Result<Option<String>, String> },
    PrimaryDone { result: Result<(), String> },
    EngineDone { result: Result<Option<String>, String> },
    FinalizeDone { result: Result<String, String> },
}

/// What the machine asks the caller to do next.  The payloads for the
/// submissions are read from the state the machine just moved to.
#[derive(Debug)]
pub enum HandshakeAction {
    FetchBootstrap,
    SubmitPrimary,
    SubmitEngine,
    Finalize,
    Stop,
}

/// Which event each state can take: the outcome of exactly the request the
/// machine asked for there.
pub open spec fn event_fits(s: HandshakeState, e: HandshakeEvent) -> bool {
    match (s, e) {
        (HandshakeState::Start, HandshakeEvent::BootstrapDone { .. }) => true,
        (HandshakeState::ParamsExtracted { .. }, HandshakeEvent::PrimaryDone { .. }) => true,
        (HandshakeState::CredentialsSubmitted { .. }, HandshakeEvent::EngineDone { .. }) => true,
        (HandshakeState::Finalizing { .. }, HandshakeEvent::FinalizeDone { .. }) => true,
        _ => false,
    }
}

/// How one step of the handshake relates the state and event taken in to the
/// state and action handed out.
pub open spec fn step_relation(
    s: HandshakeState,
    e: HandshakeEvent,
    s2: HandshakeState,
    a: HandshakeAction,
) -> bool {
    match (s, e) {
        (HandshakeState::Start, HandshakeEvent::BootstrapDone { result }) => match result {
            Err(m) => s2 matches HandshakeState::Failed {
                error: Error::Transport { message },
            } && message@ == m@ && a is Stop,
            Ok(None) => s2 matches HandshakeState::Failed { error: Error::NoUrlParams } && a
                is Stop,
            Ok(Some(q)) => match (
                query_param(q@, "entityId"@),
                query_param(q@, "authnLcKey"@),
            ) {
                (Some(ev), Some(kv)) => s2 matches HandshakeState::ParamsExtracted {
                    entity_id,
                    authn_lc_key,
                } && entity_id@ == ev && authn_lc_key@ == kv && a is SubmitPrimary,
                (None, _) => s2 matches HandshakeState::Failed {
                    error: Error::UrlParamsNotFound { name },
                } && name@ == "entityId"@ && a is Stop,
                (Some(_), None) => s2 matches HandshakeState::Failed {
                    error: Error::UrlParamsNotFound { name },
                } && name@ == "authnLcKey"@ && a is Stop,
            },
        },
        (
            HandshakeState::ParamsExtracted { entity_id, authn_lc_key },
            HandshakeEvent::PrimaryDone { result },
        ) => match result {
            Err(m) => s2 matches HandshakeState::Failed {
                error: Error::Transport { message },
            } && message@ == m@ && a is Stop,
            Ok(_) => s2 matches HandshakeState::CredentialsSubmitted {
                entity_id: e2,
                authn_lc_key: k2,
            } && e2@ == entity_id@ && k2@ == authn_lc_key@ && a is SubmitEngine,
        },
        (HandshakeState::CredentialsSubmitted { .. }, HandshakeEvent::EngineDone { result }) => match result {
            Err(m) => s2 matches HandshakeState::Failed {
                error: Error::Transport { message },
            } && message@ == m@ && a is Stop,
            Ok(None) => s2 matches HandshakeState::Failed {
                error: Error::UrlParamsNotFound { name },
            } && name@ == "token"@ && a is Stop,
            Ok(Some(q)) => match (
                query_param(q@, "token"@),
                query_param(q@, "uid"@),
                query_param(q@, "ts"@),
            ) {
                (Some(tv), Some(uv), Some(sv)) => s2 matches HandshakeState::Finalizing {
                    token,
                    uid,
                    ts,
                } && token@ == tv && uid@ == uv && ts@ == sv && a is Finalize,
                (None, _, _) => s2 matches HandshakeState::Failed {
                    error: Error::UrlParamsNotFound { name },
                } && name@ == "token"@ && a is Stop,
                (Some(_), None, _) => s2 matches HandshakeState::Failed {
                    error: Error::UrlParamsNotFound { name },
                } && name@ == "uid"@ && a is Stop,
                (Some(_), Some(_), None) => s2 matches HandshakeState::Failed {
                    error: Error::UrlParamsNotFound { name },
                } && name@ == "ts"@ && a is Stop,
            },
        },
        (HandshakeState::Finalizing { .. }, HandshakeEvent::FinalizeDone { result }) => match result {
            Err(m) => s2 matches HandshakeState::Failed {
                error: Error::Transport { message },
            } && message@ == m@ && a is Stop,
            Ok(body) => match session_id_in(body@) {
                Some(sid) => s2 matches HandshakeState::TokenExtracted { session_id }
                    && session_id@ == sid && a is Stop,
                None => s2 matches HandshakeState::Failed {
                    error: Error::FieldNotFound { name },
                } && name@ == "data.sessionid"@ && a is Stop,
            },
        },
        _ => true,
    }
}

/// A fresh login attempt: the machine starts by asking for the bootstrap
/// request.
pub fn handshake_start() -> (r: (HandshakeState, HandshakeAction))
    ensures
        r.0 is Start,
        r.1 is FetchBootstrap,
{
    (HandshakeState::Start, HandshakeAction::FetchBootstrap)
}

/// Takes the outcome of the request last asked for and moves the attempt
/// forward, as `step_relation` describes.
pub fn handshake_step(state: HandshakeState, event: HandshakeEvent) -> (r: (
    HandshakeState,
    HandshakeAction,
))
    requires
        event_fits(state, event),
    ensures
        step_relation(state, event, r.0, r.1),
{
    match (state, event) {
        (HandshakeState::Start, HandshakeEvent::BootstrapDone { result }) => match result {
            Err(message) => (
                HandshakeState::Failed { error: Error::Transport { message } },
                HandshakeAction::Stop,
            ),
            Ok(None) => (
                HandshakeState::Failed { error: Error::NoUrlParams },
                HandshakeAction::Stop,
            ),
            Ok(Some(q)) => match bootstrap_params(Some(q.as_str())) {
                Ok(p) => (
                    HandshakeState::ParamsExtracted { entity_id: p.0, authn_lc_key: p.1 },
                    HandshakeAction::SubmitPrimary,
                ),
                Err(error) => (HandshakeState::Failed { error }, HandshakeAction::Stop),
            },
        },
        (
            HandshakeState::ParamsExtracted { entity_id, authn_lc_key },
            HandshakeEvent::PrimaryDone { result },
        ) => match result {
            Err(message) => (
                HandshakeState::Failed { error: Error::Transport { message } },
                HandshakeAction::Stop,
            ),
            Ok(_) => (
                HandshakeState::CredentialsSubmitted { entity_id, authn_lc_key },
                HandshakeAction::SubmitEngine,
            ),
        },
        (HandshakeState::CredentialsSubmitted { .. }, HandshakeEvent::EngineDone { result }) => match result {
            Err(message) => (
                HandshakeState::Failed { error: Error::Transport { message } },
                HandshakeAction::Stop,
            ),
            Ok(q) => {
                let query: Option<&str> = match &q {
                    Some(qs) => Some(qs.as_str()),
                    None => None,
                };
                match token_params(query) {
                    Ok(p) => (
                        HandshakeState::Finalizing { token: p.0, uid: p.1, ts: p.2 },
                        HandshakeAction::Finalize,
                    ),
                    Err(error) => (HandshakeState::Failed { error }, HandshakeAction::Stop),
                }
            },
        },
        (HandshakeState::Finalizing { .. }, HandshakeEvent::FinalizeDone { result }) => match result {
            Err(message) => (
                HandshakeState::Failed { error: Error::Transport { message } },
                HandshakeAction::Stop,
            ),
            Ok(body) => match finalize_session(body.as_str()) {
                Ok(session_id) => (
                    HandshakeState::TokenExtracted { session_id },
                    HandshakeAction::Stop,
                ),
                Err(error) => (HandshakeState::Failed { error }, HandshakeAction::Stop),
            },
        },
        _ => vstd::pervasive::unreached(),
    }
}

/// Law: a bootstrap response whose URL carries no query string ends the
/// attempt at once — the machine moves to a failed state with the
/// no-parameters error and asks for nothing further, so no credential is
/// ever submitted.
pub proof fn lemma_no_query_fails_before_credentials(s2: HandshakeState, a: HandshakeAction)
    requires
        step_relation(
            HandshakeState::Start,
            HandshakeEvent::BootstrapDone { result: Ok(None) },
            s2,
            a,
        ),
    ensures
        s2 matches HandshakeState::Failed { error: Error::NoUrlParams },
        a is Stop,
{
}

} // verus!
