use warp::catalog::{Catalog, CatalogBundle};
use warp::locale::LocaleId;
use warp::template::TemplateError;
use warp::api_keys::{
    created_api_key, expired_api_key, ExpireApiKeyResult, GenerateApiKeyResult, created_key_lines, expire_result_message, api_key_row, api_key_table_header_keys, format_instant, expire_gate, expires_at_from_args, resolve_api_key_identifier, sort_api_keys, ApiKeyExpirationArgs, ApiKeyInfo,
    ApiKeyResolution, ApiKeySortBy, ExpirationError, ExpireGate, ExpiresIn, SortOrder, MAX_TIME_DELTA_NANOS,
};

fn key(uid: &str, name: &str, scope: &str, created_at: i128, last_used_at: Option<i128>) -> ApiKeyInfo {
    ApiKeyInfo {
        uid: uid.to_string(),
        name: name.to_string(),
        key_suffix: "abcd".to_string(),
        scope: scope.to_string(),
        created_at,
        last_used_at,
        expires_at: None,
    }
}

fn uids(keys: &[ApiKeyInfo]) -> Vec<&str> {
    keys.iter().map(|k| k.uid.as_str()).collect()
}

fn sample() -> Vec<ApiKeyInfo> {
    vec![
        key("u1", "beta", "Team", 30, Some(5)),
        key("u2", "Alpha", "User", 10, None),
        key("u3", "alpha", "Team", 20, Some(1)),
        key("u4", "Gamma", "User", 40, None),
    ]
}

#[test]
fn sort_by_name_ignores_case_and_keeps_ties_in_order() {
    let mut keys = sample();
    sort_api_keys(&mut keys, Some(ApiKeySortBy::Name), None);
    assert_eq!(uids(&keys), ["u2", "u3", "u1", "u4"]);

    let mut keys = sample();
    sort_api_keys(&mut keys, Some(ApiKeySortBy::Name), Some(SortOrder::Desc));
    assert_eq!(uids(&keys), ["u4", "u1", "u2", "u3"]);
}

#[test]
fn sort_by_instants_puts_missing_ones_first() {
    let mut keys = sample();
    sort_api_keys(&mut keys, Some(ApiKeySortBy::CreatedAt), Some(SortOrder::Asc));
    assert_eq!(uids(&keys), ["u2", "u3", "u1", "u4"]);

    let mut keys = sample();
    sort_api_keys(&mut keys, Some(ApiKeySortBy::LastUsedAt), None);
    assert_eq!(uids(&keys), ["u2", "u4", "u3", "u1"]);

    let mut keys = sample();
    sort_api_keys(&mut keys, Some(ApiKeySortBy::LastUsedAt), Some(SortOrder::Desc));
    assert_eq!(uids(&keys), ["u1", "u3", "u2", "u4"]);
}

#[test]
fn sort_by_scope_and_without_column() {
    let mut keys = sample();
    sort_api_keys(&mut keys, Some(ApiKeySortBy::Scope), None);
    assert_eq!(uids(&keys), ["u1", "u3", "u2", "u4"]);

    let mut keys = sample();
    sort_api_keys(&mut keys, None, Some(SortOrder::Desc));
    assert_eq!(uids(&keys), ["u1", "u2", "u3", "u4"]);
}

#[test]
fn resolve_prefers_uid_then_a_unique_name() {
    let keys = sample();
    match resolve_api_key_identifier(&keys, "u3") {
        ApiKeyResolution::Found(k) => assert_eq!(k.name, "alpha"),
        other => panic!("unexpected {other:?}"),
    }
    match resolve_api_key_identifier(&keys, "beta") {
        ApiKeyResolution::Found(k) => assert_eq!(k.uid, "u1"),
        other => panic!("unexpected {other:?}"),
    }
    assert!(matches!(resolve_api_key_identifier(&keys, "delta"), ApiKeyResolution::NotFound));
    // Names match exactly: "Alpha" and "alpha" are different names.
    match resolve_api_key_identifier(&keys, "Alpha") {
        ApiKeyResolution::Found(k) => assert_eq!(k.uid, "u2"),
        other => panic!("unexpected {other:?}"),
    }
}

#[test]
fn resolve_lists_several_matches_newest_first() {
    let keys = vec![
        key("a", "ci", "Team", 10, None),
        key("b", "other", "Team", 50, None),
        key("c", "ci", "Team", 30, None),
        key("d", "ci", "Team", 20, None),
    ];
    match resolve_api_key_identifier(&keys, "ci") {
        ApiKeyResolution::Ambiguous(matches) => assert_eq!(uids(&matches), ["c", "d", "a"]),
        other => panic!("unexpected {other:?}"),
    }
}

#[test]
fn expiration_options_in_order_of_precedence() {
    let never = ApiKeyExpirationArgs { no_expiration: true, expires_at: Some(5), expires_in: None };
    assert_eq!(expires_at_from_args(&never, 100), Ok(None));

    let at = ApiKeyExpirationArgs { no_expiration: false, expires_at: Some(5), expires_in: Some(ExpiresIn { secs: 1, nanos: 0 }) };
    assert_eq!(expires_at_from_args(&at, 100), Ok(Some(5)));

    let within = ApiKeyExpirationArgs { no_expiration: false, expires_at: None, expires_in: Some(ExpiresIn { secs: 2, nanos: 5 }) };
    assert_eq!(expires_at_from_args(&within, 100), Ok(Some(2_000_000_105)));

    let none = ApiKeyExpirationArgs { no_expiration: false, expires_at: None, expires_in: None };
    assert_eq!(expires_at_from_args(&none, 100), Err(ExpirationError::BehaviorRequired));
    assert_eq!(
        ExpirationError::BehaviorRequired.message_key(),
        "agent_sdk.api_key.error.expiration_behavior_required"
    );
}

#[test]
fn expiration_span_is_bounded_by_time_delta() {
    // i64::MAX milliseconds is the longest span.
    let max = ExpiresIn { secs: 9_223_372_036_854_775, nanos: 807_000_000 };
    let args = ApiKeyExpirationArgs { no_expiration: false, expires_at: None, expires_in: Some(max) };
    assert_eq!(expires_at_from_args(&args, 0), Ok(Some(MAX_TIME_DELTA_NANOS)));

    let over = ExpiresIn { secs: 9_223_372_036_854_775, nanos: 807_000_001 };
    let args = ApiKeyExpirationArgs { no_expiration: false, expires_at: None, expires_in: Some(over) };
    assert_eq!(expires_at_from_args(&args, 0), Err(ExpirationError::TooLarge));
    assert_eq!(ExpirationError::TooLarge.message_key(), "agent_sdk.api_key.error.expiration_too_large");

    let huge = ExpiresIn { secs: u64::MAX, nanos: 0 };
    let args = ApiKeyExpirationArgs { no_expiration: false, expires_at: None, expires_in: Some(huge) };
    assert_eq!(expires_at_from_args(&args, 0), Err(ExpirationError::TooLarge));
}

#[test]
fn expiring_needs_force_without_a_terminal() {
    assert_eq!(expire_gate(true, false), ExpireGate::Proceed);
    assert_eq!(expire_gate(true, true), ExpireGate::Proceed);
    assert_eq!(expire_gate(false, true), ExpireGate::Confirm);
    assert_eq!(expire_gate(false, false), ExpireGate::RequireForce);
}

#[test]
fn duplicate_copies_every_field() {
    let k = key("u9", "n", "s", 7, Some(8));
    assert_eq!(k.duplicate(), k);
}

const SECOND: i128 = 1_000_000_000;

#[test]
fn instants_are_written_in_utc_to_the_second() {
    assert_eq!(format_instant(1_431_648_000 * SECOND).as_deref(), Some("2015-05-15 00:00:00 UTC"));
    assert_eq!(format_instant(1_431_648_000 * SECOND + 999_999_999).as_deref(), Some("2015-05-15 00:00:00 UTC"));
    assert_eq!(format_instant(-1).as_deref(), Some("1969-12-31 23:59:59 UTC"));
    assert_eq!(format_instant(-SECOND).as_deref(), Some("1969-12-31 23:59:59 UTC"));
    assert_eq!(format_instant(i128::MAX), None);
    assert_eq!(format_instant(i128::MIN), None);
}

#[test]
fn key_labels_name_the_key_and_when_it_was_created() {
    let k = key("u1", "deploy", "Team", 1_431_648_000 * SECOND, None);
    assert_eq!(k.label(), "deploy (u1, created 2015-05-15 00:00:00 UTC)");
}

#[test]
fn key_table_has_seven_columns() {
    assert_eq!(
        api_key_table_header_keys(),
        [
            "agent_sdk.api_key.table.uid",
            "agent_sdk.api_key.table.name",
            "agent_sdk.api_key.table.key",
            "agent_sdk.api_key.table.scope",
            "agent_sdk.api_key.table.created",
            "agent_sdk.api_key.table.last_used",
            "agent_sdk.api_key.table.expires_at",
        ]
    );
}

#[test]
fn key_rows_mask_the_key_and_write_never_for_missing_instants() {
    let unused = key("u1", "deploy", "Team", 0, None);
    assert_eq!(
        api_key_row(&unused, "2 days ago", "ignored", "Never"),
        ["u1", "deploy", "wk-**abcd", "Team", "2 days ago", "Never", "Never"]
    );
    let mut used = key("u2", "ci", "User", 0, Some(5));
    used.expires_at = Some(1_431_648_000 * SECOND);
    assert_eq!(
        api_key_row(&used, "a year ago", "an hour ago", "Never"),
        ["u2", "ci", "wk-**abcd", "User", "a year ago", "an hour ago", "2015-05-15 00:00:00 UTC"]
    );
}

fn bundle() -> CatalogBundle {
    let en = Catalog::from_json(
        LocaleId::EnUs,
        r#"{
            "agent_sdk.api_key.output.expired": "Expired API key {key_uid}",
            "agent_sdk.api_key.output.not_expired": "API key {key_uid} was not expired",
            "agent_sdk.api_key.output.created": "Created API key {name}",
            "agent_sdk.api_key.output.uid": "UID:",
            "agent_sdk.api_key.output.raw_api_key": "Key:",
            "agent_sdk.api_key.output.secret_shown_once": "This key is shown only once."
        }"#,
    )
    .unwrap();
    CatalogBundle::new(LocaleId::EnUs, vec![en]).unwrap()
}

#[test]
fn expiration_results_say_whether_the_key_expired() {
    let b = bundle();
    assert_eq!(expire_result_message(&b, LocaleId::EnUs, "u1", true).unwrap(), "Expired API key u1");
    assert_eq!(expire_result_message(&b, LocaleId::EnUs, "u1", false).unwrap(), "API key u1 was not expired");
}

#[test]
fn created_keys_are_reported_with_their_secret_once() {
    let b = bundle();
    assert_eq!(
        created_key_lines(&b, LocaleId::EnUs, "deploy", "u9", "wk-secret").unwrap(),
        ["Created API key deploy", "UID: u9", "Key: wk-secret", "This key is shown only once."]
    );
    let broken = CatalogBundle::new(
        LocaleId::EnUs,
        vec![Catalog::from_json(LocaleId::EnUs, r#"{"agent_sdk.api_key.output.created": "Created {title}"}"#).unwrap()],
    )
    .unwrap();
    assert!(matches!(
        created_key_lines(&broken, LocaleId::EnUs, "deploy", "u9", "k"),
        Err(TemplateError::MissingArgument { .. }) | Err(TemplateError::UnusedArgument { .. })
    ));
}

#[test]
fn server_answers_to_create_give_the_key_or_the_message() {
    let k = key("u1", "deploy", "Team", 0, None);
    let created = created_api_key(
        GenerateApiKeyResult::GenerateApiKeyOutput { raw_api_key: "wk-secret".to_string(), api_key: k.clone() },
        "unknown".to_string(),
    )
    .ok()
    .unwrap();
    assert_eq!(created.raw_api_key, "wk-secret");
    assert_eq!(created.api_key, k);
    assert_eq!(
        created_api_key(GenerateApiKeyResult::UserFacingError("quota".to_string()), "unknown".to_string()).err(),
        Some("quota".to_string())
    );
    assert_eq!(created_api_key(GenerateApiKeyResult::Unknown, "unknown".to_string()).err(), Some("unknown".to_string()));
}

#[test]
fn server_answers_to_expire_give_the_outcome_or_the_message() {
    let e = expired_api_key(ExpireApiKeyResult::ExpireApiKeyOutput { success: false }, "u1".to_string(), "x".to_string())
        .ok()
        .unwrap();
    assert_eq!(e.key_uid, "u1");
    assert!(!e.expired);
    assert_eq!(
        expired_api_key(ExpireApiKeyResult::UserFacingError("no".to_string()), "u1".to_string(), "x".to_string()).err(),
        Some("no".to_string())
    );
    assert_eq!(expired_api_key(ExpireApiKeyResult::Unknown, "u1".to_string(), "x".to_string()).err(), Some("x".to_string()));
}
