use keyring::config::BitwardenProviderConfig;
use keyring::session::{
    login_expiry, sync_headers, sync_url, token_headers, token_url, AuthState, SessionSettings, SyncDecision, SyncFailure,
    SyncRun,
};

const SECOND: u64 = 1_000_000_000;

#[test]
fn tokens_are_renewed_within_five_minutes_of_expiry() {
    let mut auth = AuthState::new();
    assert!(auth.stale(0));
    assert!(auth.crypto_needed());
    let exp = login_expiry(100 * SECOND, 3600).unwrap();
    assert_eq!(exp, 3700 * SECOND);
    auth.publish("t1".to_owned(), exp);
    assert!(!auth.crypto_needed());
    assert!(!auth.stale(3399 * SECOND));
    assert!(auth.stale(3400 * SECOND));
    assert_eq!(login_expiry(u64::MAX - 1, 1), None);
    assert_eq!(login_expiry(0, u64::MAX), None);
}

#[test]
fn recovers_from_an_expired_token_once() {
    let mut auth = AuthState::new();
    auth.publish("old".to_owned(), 10 * SECOND);
    let mut run = SyncRun::new();
    let used = auth.current_token().unwrap();
    assert_eq!(run.on_status(&mut auth, &used, 401), SyncDecision::Retry { login: true });
    assert!(auth.token.is_none() && auth.exp.is_none() && auth.crypto);
    auth.publish("new".to_owned(), 20 * SECOND);
    let used = auth.current_token().unwrap();
    assert_eq!(used, "new");
    assert_eq!(run.on_status(&mut auth, &used, 200), SyncDecision::Parse);
}

#[test]
fn rejects_the_replacement_token_without_a_third_attempt() {
    let mut auth = AuthState::new();
    auth.publish("a".to_owned(), 10 * SECOND);
    let mut run = SyncRun::new();
    assert_eq!(run.on_status(&mut auth, &"a".to_owned(), 401), SyncDecision::Retry { login: true });
    auth.publish("b".to_owned(), 10 * SECOND);
    assert_eq!(
        run.on_status(&mut auth, &"b".to_owned(), 401),
        SyncDecision::Fail(SyncFailure::UnauthorizedAfterRefresh(401))
    );
    assert!(auth.token.is_none());
    assert_eq!(auth.current_token(), Err(SyncFailure::MissingToken));
}

#[test]
fn a_late_rejection_keeps_a_replaced_token() {
    let mut auth = AuthState::new();
    auth.publish("fresh".to_owned(), 10 * SECOND);
    let mut run = SyncRun::new();
    assert_eq!(run.on_status(&mut auth, &"stale".to_owned(), 401), SyncDecision::Retry { login: false });
    assert_eq!(auth.token.as_deref(), Some("fresh"));
}

#[test]
fn other_statuses_do_not_retry() {
    let mut auth = AuthState::new();
    let mut run = SyncRun::new();
    assert_eq!(run.on_status(&mut auth, &"t".to_owned(), 500), SyncDecision::Fail(SyncFailure::Status(500)));
    assert_eq!(run.on_status(&mut auth, &"t".to_owned(), 403), SyncDecision::Fail(SyncFailure::Status(403)));
    assert_eq!(run.on_status(&mut auth, &"t".to_owned(), 204), SyncDecision::Parse);
}

#[test]
fn endpoints_and_settings() {
    let config = BitwardenProviderConfig {
        name: "vault".to_owned(),
        api_url: "https://api.example".to_owned(),
        identity_url: "https://identity.example".to_owned(),
        client_id: "id".to_owned(),
        client_secret: "secret".to_owned(),
        password: "pw".to_owned(),
    };
    let s = SessionSettings::new(&config);
    assert_eq!((s.connect_timeout_secs, s.read_timeout_secs, s.total_timeout_secs), (5, 5, 10));
    assert_eq!(s.api_url, "https://api.example");
    assert_eq!(s.identity_user_agent, "OpenAPI-Generator/v1/rust");
    assert_eq!(sync_url(&s.api_url), "https://api.example/sync");
    assert_eq!(token_url(&s.identity_url), "https://identity.example/connect/token");
    assert_eq!(sync_headers()[0], ("bitwarden-client-name".to_owned(), "web".to_owned()));
    assert_eq!(token_headers()[2], ("Device-Type".to_owned(), "10".to_owned()));
}
