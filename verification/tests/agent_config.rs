use warp::agent_config::{
    agents_header, auth_step, failure_message, notice_message, truncate_base_prompt, variant_rows, AgentEnvironment,
    AgentVariant, AgentsHeader, AuthAction, AuthEvent, AuthFailure, AuthFlowState, AuthNotice, OauthPollOutcome,
    RepoAuthStatus, RepoAuthStatusEntry, VariantRow, MAX_AUTH_ATTEMPTS,
};
use warp::catalog::{Catalog, CatalogBundle};
use warp::locale::LocaleId;

fn status(owner: &str, repo: &str, is_public: bool, status: RepoAuthStatus) -> RepoAuthStatusEntry {
    RepoAuthStatusEntry { owner: owner.to_string(), repo: repo.to_string(), is_public, status }
}

fn checked(statuses: Vec<RepoAuthStatusEntry>, auth_url: Option<&str>, tx_id: Option<&str>) -> AuthEvent {
    AuthEvent::StatusChecked {
        statuses,
        auth_url: auth_url.map(str::to_string),
        tx_id: tx_id.map(str::to_string),
    }
}

#[test]
fn an_attempt_checks_until_the_limit() {
    let first = AuthFlowState::new();
    assert_eq!(first.attempt, 1);
    assert_eq!(auth_step(first, AuthEvent::Begin).action, AuthAction::CheckStatus);
    let last = AuthFlowState { attempt: MAX_AUTH_ATTEMPTS };
    assert_eq!(auth_step(last, AuthEvent::Begin).action, AuthAction::CheckStatus);
    let over = AuthFlowState { attempt: MAX_AUTH_ATTEMPTS + 1 };
    assert_eq!(auth_step(over, AuthEvent::Begin).action, AuthAction::Fail(AuthFailure::MaxAttempts));
}

#[test]
fn reachable_repositories_list_agents() {
    let step = auth_step(
        AuthFlowState::new(),
        checked(
            vec![
                status("warp", "app", false, RepoAuthStatus::Success),
                status("warp", "docs", true, RepoAuthStatus::NoInstallationOrAccessForRepo),
            ],
            Some("https://example.com/auth"),
            None,
        ),
    );
    assert!(step.notices.is_empty());
    assert_eq!(step.action, AuthAction::ListAgents);
    assert_eq!(step.state.attempt, 1);
}

#[test]
fn missing_access_follows_the_offer() {
    let statuses = || {
        vec![
            status("warp", "private", false, RepoAuthStatus::NoInstallationOrAccessForRepo),
            status("warp", "other", false, RepoAuthStatus::NoInstallationOrAccessForRepo),
        ]
    };
    let step = auth_step(AuthFlowState::new(), checked(statuses(), Some("https://auth"), Some("tx-1")));
    assert_eq!(
        step.notices,
        vec![
            AuthNotice::CannotAccessPrivateRepo { repo: "warp/private".to_string() },
            AuthNotice::CannotAccessPrivateRepo { repo: "warp/other".to_string() },
        ]
    );
    assert_eq!(
        step.action,
        AuthAction::OpenAndPoll { auth_url: "https://auth".to_string(), tx_id: "tx-1".to_string() }
    );

    let step = auth_step(AuthFlowState::new(), checked(statuses(), Some("https://auth"), None));
    assert_eq!(step.action, AuthAction::ShowAuthorizeLink { auth_url: "https://auth".to_string() });

    let step = auth_step(AuthFlowState::new(), checked(statuses(), None, Some("tx-1")));
    assert_eq!(step.action, AuthAction::Fail(AuthFailure::NoAuthFlow));
}

#[test]
fn unconnected_github_stops_the_scan() {
    let step = auth_step(
        AuthFlowState::new(),
        checked(
            vec![
                status("a", "one", false, RepoAuthStatus::NoInstallationOrAccessForRepo),
                status("a", "two", false, RepoAuthStatus::UserNotConnectedToGithub),
                status("a", "three", false, RepoAuthStatus::NoInstallationOrAccessForRepo),
            ],
            None,
            None,
        ),
    );
    assert_eq!(
        step.notices,
        vec![
            AuthNotice::CannotAccessPrivateRepo { repo: "a/one".to_string() },
            AuthNotice::GithubNotConnected,
        ]
    );
    assert_eq!(step.action, AuthAction::Fail(AuthFailure::NoAuthFlow));
}

#[test]
fn poll_outcomes() {
    let s = AuthFlowState { attempt: 3 };
    let step = auth_step(s, AuthEvent::PollFinished(OauthPollOutcome::Completed));
    assert_eq!(step.state.attempt, 4);
    assert_eq!(step.action, AuthAction::CheckStatus);
    let s = AuthFlowState { attempt: MAX_AUTH_ATTEMPTS };
    let step = auth_step(s, AuthEvent::PollFinished(OauthPollOutcome::Completed));
    assert_eq!(step.action, AuthAction::Fail(AuthFailure::MaxAttempts));
    let s = AuthFlowState { attempt: 1 };
    assert_eq!(
        auth_step(s, AuthEvent::PollFinished(OauthPollOutcome::Failed)).action,
        AuthAction::Fail(AuthFailure::AuthorizationFailed)
    );
    assert_eq!(
        auth_step(s, AuthEvent::PollFinished(OauthPollOutcome::Expired)).action,
        AuthAction::Fail(AuthFailure::AuthorizationExpired)
    );
    assert_eq!(
        auth_step(s, AuthEvent::PollFinished(OauthPollOutcome::Unexpected)).action,
        AuthAction::Fail(AuthFailure::UnexpectedStatus)
    );
    assert_eq!(
        auth_step(s, AuthEvent::PollFinished(OauthPollOutcome::Error("boom".to_string()))).action,
        AuthAction::Fail(AuthFailure::PollingFailed("boom".to_string()))
    );
    assert_eq!(
        auth_step(s, AuthEvent::CheckFailed("down".to_string())).action,
        AuthAction::Fail(AuthFailure::CheckFailed("down".to_string()))
    );
}

fn bundle() -> CatalogBundle {
    let en = Catalog::from_json(
        LocaleId::EnUs,
        r#"{
            "agent_sdk.agent_config.error.max_auth_attempts": "Gave up after {max_attempts} attempts",
            "agent_sdk.oauth.error.polling_status": "Polling failed: {error}",
            "agent_sdk.agent_config.error.cannot_access_private_repo": "Cannot access {repo}",
            "agent_sdk.agent_config.error.github_not_connected": "GitHub is not connected"
        }"#,
    )
    .unwrap();
    CatalogBundle::new(LocaleId::EnUs, vec![en]).unwrap()
}

#[test]
fn messages_fill_in_their_values() {
    let b = bundle();
    assert_eq!(
        failure_message(&b, LocaleId::EnUs, &AuthFailure::MaxAttempts).unwrap(),
        "Gave up after 8 attempts"
    );
    assert_eq!(
        failure_message(&b, LocaleId::EnUs, &AuthFailure::PollingFailed("timeout".to_string())).unwrap(),
        "Polling failed: timeout"
    );
    assert_eq!(
        failure_message(&b, LocaleId::EnUs, &AuthFailure::NoAuthFlow).unwrap(),
        "agent_sdk.agent_config.error.no_auth_flow"
    );
    assert_eq!(
        notice_message(&b, LocaleId::ZhCn, &AuthNotice::CannotAccessPrivateRepo { repo: "a/b".to_string() }).unwrap(),
        "Cannot access a/b"
    );
    assert_eq!(
        notice_message(&b, LocaleId::EnUs, &AuthNotice::GithubNotConnected).unwrap(),
        "GitHub is not connected"
    );
}

#[test]
fn headers_for_agent_counts() {
    assert_eq!(agents_header(0), AgentsHeader::NoAgentsFound);
    assert_eq!(agents_header(1), AgentsHeader::OneAgent);
    assert_eq!(agents_header(5), AgentsHeader::Agents(5));
}

#[test]
fn base_prompts_are_cut_after_a_hundred_characters() {
    let exact: String = "é".repeat(100);
    assert_eq!(truncate_base_prompt(&exact), exact);
    let long: String = "é".repeat(101);
    assert_eq!(truncate_base_prompt(&long), format!("{}...", "é".repeat(100)));
    assert_eq!(truncate_base_prompt("short"), "short");
}

#[test]
fn variant_cards_skip_empty_fields() {
    let v = AgentVariant {
        id: "v1".to_string(),
        description: String::new(),
        base_prompt: "Do it".to_string(),
        source_owner: "warp".to_string(),
        source_name: "agents".to_string(),
        environments: vec![
            AgentEnvironment { name: "prod".to_string(), uid: "e1".to_string() },
            AgentEnvironment { name: "dev".to_string(), uid: "e2".to_string() },
        ],
    };
    assert_eq!(
        variant_rows(&v),
        vec![
            VariantRow::Id("v1".to_string()),
            VariantRow::BasePrompt("Do it".to_string()),
            VariantRow::Source("warp/agents".to_string()),
            VariantRow::Environments("prod (e1), dev (e2)".to_string()),
        ]
    );
    let bare = AgentVariant { environments: vec![], base_prompt: String::new(), description: "d".to_string(), ..v };
    assert_eq!(
        variant_rows(&bare),
        vec![
            VariantRow::Id("v1".to_string()),
            VariantRow::Description("d".to_string()),
            VariantRow::Source("warp/agents".to_string()),
        ]
    );
}

#[test]
fn failures_without_arguments_show_the_catalog_text_as_it_stands() {
    let en = Catalog::from_json(
        LocaleId::EnUs,
        r#"{
            "agent_sdk.agent_config.error.no_auth_flow": "No {flow} found",
            "agent_sdk.agent_config.error.github_not_connected": "Connect {{GitHub}}"
        }"#,
    )
    .unwrap();
    let b = CatalogBundle::new(LocaleId::EnUs, vec![en]).unwrap();
    assert_eq!(failure_message(&b, LocaleId::EnUs, &AuthFailure::NoAuthFlow).unwrap(), "No {flow} found");
    assert_eq!(notice_message(&b, LocaleId::EnUs, &AuthNotice::GithubNotConnected).unwrap(), "Connect {{GitHub}}");
}
