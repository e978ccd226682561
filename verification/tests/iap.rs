use warp::iap::{
    get_expires_at, parse_exp_from_jwt, refresh_delay, retry_delay, token_from_output, CachedToken, ChallengeResponse,
    IapCredentialsState, IapError, IapManager, IapState, BASE_FAILURE_RETRY_DELAY_MS, MAX_FAILURE_RETRIES,
    MAX_FAILURE_RETRY_DELAY_MS, PROACTIVE_REFRESH_BUFFER_MS,
};

const TOKEN: &str = "eyJhbGciOiJSUzI1NiJ9.eyJleHAiOjIwMDAwMDAwMDB9.c2ln";
const NO_EXP: &str = "eyJhbGciOiJSUzI1NiJ9.eyJzdWIiOiJ4In0.c2ln";
const NEGATIVE_EXP: &str = "eyJhbGciOiJSUzI1NiJ9.eyJleHAiOi01fQ.c2ln";

#[test]
fn jwt_expiry_is_read_from_the_payload() {
    assert_eq!(parse_exp_from_jwt(TOKEN), Some(2_000_000_000));
    assert_eq!(parse_exp_from_jwt(NO_EXP), None);
    assert_eq!(parse_exp_from_jwt(NEGATIVE_EXP), None);
    assert_eq!(parse_exp_from_jwt("not a jwt"), None);
    assert_eq!(parse_exp_from_jwt("a.%%%.c"), None);
    // Two segments are enough.
    assert_eq!(parse_exp_from_jwt("x.eyJleHAiOjIwMDAwMDAwMDB9"), Some(2_000_000_000));
}

#[test]
fn expiry_becomes_a_monotonic_instant() {
    assert_eq!(get_expires_at(TOKEN, 1_999_999_000, 500), Ok(1_000_500));
    assert_eq!(
        get_expires_at(TOKEN, 2_000_000_001, 500),
        Err(IapError::AlreadyExpired { exp: 2_000_000_000, now: 2_000_000_001 })
    );
    assert_eq!(get_expires_at(NO_EXP, 0, 0), Err(IapError::MissingExpiry));
}

#[test]
fn command_output_becomes_a_token() {
    let out = format!("  {TOKEN}\n").into_bytes();
    let cached = token_from_output(true, out, "", 1_999_999_990, 7).unwrap();
    assert_eq!(cached, CachedToken { token: TOKEN.to_string(), expires_at: 10_007 });
    assert_eq!(
        token_from_output(false, vec![], "  ERROR: not logged in\n", 0, 0),
        Err(IapError::CommandFailed("ERROR: not logged in".to_string()))
    );
    assert_eq!(token_from_output(true, vec![0xff, 0xfe], "", 0, 0), Err(IapError::OutputNotUtf8));
    assert_eq!(token_from_output(true, b" \n".to_vec(), "", 0, 0), Err(IapError::EmptyToken));
}

#[test]
fn cached_tokens_expire() {
    let c = CachedToken { token: "t".to_string(), expires_at: 100 };
    assert_eq!(c.valid_token(99), Some("t".to_string()));
    assert_eq!(c.valid_token(100), None);
}

#[test]
fn delays() {
    assert_eq!(refresh_delay(1_000_000, 0), 1_000_000 - PROACTIVE_REFRESH_BUFFER_MS);
    assert_eq!(refresh_delay(100, 50), 0);
    assert_eq!(refresh_delay(10, 50), 0);
    assert_eq!(retry_delay(0), BASE_FAILURE_RETRY_DELAY_MS);
    assert_eq!(retry_delay(1), 60_000);
    assert_eq!(retry_delay(3), 240_000);
    assert_eq!(retry_delay(4), MAX_FAILURE_RETRY_DELAY_MS);
}

#[test]
fn injected_tokens_are_never_refreshed() {
    let state = IapState::new("aud", "sa@example.com", Some("injected".to_string()));
    assert_eq!(state.get_cached(0), Some("injected".to_string()));
    let (mut manager, fetch) = IapManager::new(Some(state));
    assert!(fetch.is_none());
    assert_eq!(manager.handle_challenge(), ChallengeResponse::StaleInjectedToken);
    assert!(manager.start_refresh().is_none());
    assert_eq!(manager.state(), Some(IapCredentialsState::EnvInjected { token: "injected".to_string() }));
}

#[test]
fn an_empty_injected_token_is_ignored() {
    let state = IapState::new("aud", "sa", Some(String::new()));
    assert_eq!(state.state(), IapCredentialsState::Missing);
    assert_eq!(state.audiences(), "aud");
    assert_eq!(state.service_account_email(), "sa");
}

#[test]
fn refresh_lifecycle_with_retries() {
    let (mut manager, fetch) = IapManager::new(Some(IapState::new("aud", "sa", None)));
    let fetch = fetch.unwrap();
    assert_eq!(fetch.audiences, "aud");
    assert!(manager.is_enabled());
    assert_eq!(manager.state(), Some(IapCredentialsState::Refreshing { previous: None }));
    // A second refresh does not start while one runs.
    assert!(manager.start_refresh().is_none());

    let follow = manager.finish_refresh(Ok(CachedToken { token: "t1".to_string(), expires_at: 1_000_000 }), 0);
    assert_eq!(follow.failure_toast, None);
    assert_eq!(follow.next_refresh_in, Some(1_000_000 - PROACTIVE_REFRESH_BUFFER_MS));

    let mut delays = vec![];
    let mut toasts = 0;
    for _ in 0..(MAX_FAILURE_RETRIES + 2) {
        assert!(manager.start_refresh().is_some());
        let follow = manager.finish_refresh(Err("boom".to_string()), 10);
        if follow.failure_toast.is_some() {
            toasts += 1;
        }
        delays.push(follow.next_refresh_in);
    }
    assert_eq!(toasts, 1);
    assert_eq!(
        delays,
        vec![Some(30_000), Some(60_000), Some(120_000), Some(240_000), Some(300_000), None, None]
    );
    // The last token stays in use while it is valid.
    match manager.state() {
        Some(IapCredentialsState::Failed { message, previous }) => {
            assert_eq!(message, "boom");
            assert_eq!(previous.unwrap().token, "t1");
        }
        other => panic!("unexpected {other:?}"),
    }
    // A challenge resets the streak.
    match manager.handle_challenge() {
        ChallengeResponse::Refresh(Some(_)) => {}
        other => panic!("unexpected {other:?}"),
    }
    let follow = manager.finish_refresh(Err("again".to_string()), 10);
    assert_eq!(follow.failure_toast, Some("again".to_string()));
    assert_eq!(follow.next_refresh_in, Some(30_000));
}

#[test]
fn iap_off() {
    let (mut manager, fetch) = IapManager::new(None);
    assert!(fetch.is_none());
    assert!(!manager.is_enabled());
    assert_eq!(manager.handle_challenge(), ChallengeResponse::Ignored);
    let follow = manager.finish_refresh(Err("x".to_string()), 0);
    assert_eq!(follow.next_refresh_in, None);
}
