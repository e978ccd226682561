//! Listing the agents of the agent command line: the GitHub authorization that a
//! repository needs first, and the cards that show each agent.

use vstd::prelude::*;
use vstd::string::StrSliceExecFns;

use crate::catalog::CatalogBundle;
use crate::locale::LocaleId;
use crate::localization::{bundle_text, text_for_locale, text_for_locale_with_args};
use crate::template::{arg_views, message_outcome, outcome_of, template_outcome, TemplateError, TemplateOutcome};
use crate::text::{append_str, chars_of, decimal, decimal_u64, push_char, string_from_chars};

verus! {

/// How many times the authorization of a repository is checked before the command
/// gives up.
pub const MAX_AUTH_ATTEMPTS: u32 = 8;

/// The width that wrapped fields of an agent card fit in.
pub const MAX_LINE_WIDTH: usize = 90;

/// Whether the user can reach a repository through GitHub.
#[derive(Clone, Copy, Debug, PartialEq, Eq, Structural)]
pub enum RepoAuthStatus {
    Success,
    NoInstallationOrAccessForRepo,
    UserNotConnectedToGithub,
}

/// The authorization status of one repository.
#[derive(Clone, Debug, PartialEq, Eq)]
pub struct RepoAuthStatusEntry {
    pub owner: String,
    pub repo: String,
    pub is_public: bool,
    pub status: RepoAuthStatus,
}

/// A problem that an authorization check reports on the error stream.
#[derive(Clone, Debug, PartialEq, Eq)]
pub enum AuthNotice {
    /// A private repository (`owner/repo`) cannot be reached.
    CannotAccessPrivateRepo { repo: String },
    /// The user has not connected GitHub.
    GithubNotConnected,
}

/// A notice as a spec value.
pub ghost enum AuthNoticeView {
    CannotAccessPrivateRepo(Seq<char>),
    GithubNotConnected,
}

impl View for AuthNotice {
    type V = AuthNoticeView;

    open spec fn view(&self) -> AuthNoticeView {
        match self {
            AuthNotice::CannotAccessPrivateRepo { repo } => AuthNoticeView::CannotAccessPrivateRepo(repo@),
            AuthNotice::GithubNotConnected => AuthNoticeView::GithubNotConnected,
        }
    }
}

/// `owner/repo`.
pub open spec fn repo_slug(owner: Seq<char>, repo: Seq<char>) -> Seq<char> {
    owner + seq!['/'] + repo
}

/// The notices of a check, in the order of the statuses: one for each private
/// repository that cannot be reached; one when GitHub is not connected, after which the
/// remaining statuses are not looked at.
pub open spec fn auth_notices(s: Seq<RepoAuthStatusEntry>) -> Seq<AuthNoticeView>
    decreases s.len(),
{
    if s.len() == 0 {
        seq![]
    } else {
        match s[0].status {
            RepoAuthStatus::Success => auth_notices(s.drop_first()),
            RepoAuthStatus::NoInstallationOrAccessForRepo => if s[0].is_public {
                auth_notices(s.drop_first())
            } else {
                seq![AuthNoticeView::CannotAccessPrivateRepo(repo_slug(s[0].owner@, s[0].repo@))]
                    + auth_notices(s.drop_first())
            },
            RepoAuthStatus::UserNotConnectedToGithub => seq![AuthNoticeView::GithubNotConnected],
        }
    }
}

/// How a wait for an OAuth authorization ended.
#[derive(Clone, Debug, PartialEq, Eq)]
pub enum OauthPollOutcome {
    Completed,
    Failed,
    Expired,
    /// The transaction ended in another status.
    Unexpected,
    /// Polling failed, with the error's text.
    Error(String),
}

/// Why listing agents for a repository gave up.
#[derive(Clone, Debug, PartialEq, Eq)]
pub enum AuthFailure {
    /// The repository was checked as many times as allowed.
    MaxAttempts,
    /// The status check failed, with the error's text.
    CheckFailed(String),
    AuthorizationFailed,
    AuthorizationExpired,
    UnexpectedStatus,
    /// Polling for the authorization failed, with the error's text.
    PollingFailed(String),
    /// Access is missing and the server offered no way to authorize.
    NoAuthFlow,
}

/// What the command does next.
#[derive(Clone, Debug, PartialEq, Eq)]
pub enum AuthAction {
    /// Check the authorization status of the repositories.
    CheckStatus,
    /// Fetch and show the agents.
    ListAgents,
    /// Say that authorization is required, open `auth_url` in the browser and wait for
    /// the transaction `tx_id`.
    OpenAndPoll { auth_url: String, tx_id: String },
    /// Show `auth_url` to authorize at, ask to run the command again, and exit.
    ShowAuthorizeLink { auth_url: String },
    /// Exit with the error.
    Fail(AuthFailure),
}

/// What the command learns while it authorizes.
#[derive(Clone, Debug, PartialEq, Eq)]
pub enum AuthEvent {
    /// The command starts an attempt.
    Begin,
    /// The status check answered.
    StatusChecked { statuses: Vec<RepoAuthStatusEntry>, auth_url: Option<String>, tx_id: Option<String> },
    /// The status check failed, with the error's text.
    CheckFailed(String),
    /// The wait for an OAuth authorization ended.
    PollFinished(OauthPollOutcome),
}

/// The state of an authorization: the number of the current attempt, from 1.
#[derive(Clone, Copy, Debug, PartialEq, Eq, Structural)]
pub struct AuthFlowState {
    pub attempt: u32,
}

impl AuthFlowState {
    /// The first attempt.
    pub fn new() -> (r: AuthFlowState)
        ensures
            r.attempt == 1,
    {
        AuthFlowState { attempt: 1 }
    }
}

/// One step of an authorization: the next state, the notices to report and the action.
#[derive(Clone, Debug, PartialEq, Eq)]
pub struct AuthStep {
    pub state: AuthFlowState,
    pub notices: Vec<AuthNotice>,
    pub action: AuthAction,
}

/// The action that starts attempt `attempt`.
pub open spec fn begin_action(attempt: u32) -> AuthAction {
    if attempt > MAX_AUTH_ATTEMPTS {
        AuthAction::Fail(AuthFailure::MaxAttempts)
    } else {
        AuthAction::CheckStatus
    }
}

/// The action after a status check with these notices and authorization offer.
pub open spec fn checked_action(
    notices: Seq<AuthNoticeView>,
    auth_url: Option<String>,
    tx_id: Option<String>,
) -> AuthAction {
    if notices.len() == 0 {
        AuthAction::ListAgents
    } else {
        match (auth_url, tx_id) {
            (Some(u), Some(t)) => AuthAction::OpenAndPoll { auth_url: u, tx_id: t },
            (Some(u), None) => AuthAction::ShowAuthorizeLink { auth_url: u },
            _ => AuthAction::Fail(AuthFailure::NoAuthFlow),
        }
    }
}

/// The step of the authorization from `state` on `event`.
pub open spec fn auth_step_spec(state: AuthFlowState, event: AuthEvent) -> (AuthFlowState, Seq<AuthNoticeView>, AuthAction) {
    match event {
        AuthEvent::Begin => (state, seq![], begin_action(state.attempt)),
        AuthEvent::StatusChecked { statuses, auth_url, tx_id } => (
            state,
            auth_notices(statuses@),
            checked_action(auth_notices(statuses@), auth_url, tx_id),
        ),
        AuthEvent::CheckFailed(e) => (state, seq![], AuthAction::Fail(AuthFailure::CheckFailed(e))),
        AuthEvent::PollFinished(outcome) => match outcome {
            OauthPollOutcome::Completed => (
                AuthFlowState { attempt: (state.attempt + 1) as u32 },
                seq![],
                begin_action((state.attempt + 1) as u32),
            ),
            OauthPollOutcome::Failed => (state, seq![], AuthAction::Fail(AuthFailure::AuthorizationFailed)),
            OauthPollOutcome::Expired => (state, seq![], AuthAction::Fail(AuthFailure::AuthorizationExpired)),
            OauthPollOutcome::Unexpected => (state, seq![], AuthAction::Fail(AuthFailure::UnexpectedStatus)),
            OauthPollOutcome::Error(e) => (state, seq![], AuthAction::Fail(AuthFailure::PollingFailed(e))),
        },
    }
}

/// The views of notices.
pub open spec fn notice_views(n: Seq<AuthNotice>) -> Seq<AuthNoticeView> {
    n.map_values(|x: AuthNotice| x@)
}

fn slug(owner: &String, repo: &String) -> (r: String)
    ensures
        r@ == repo_slug(owner@, repo@),
{
    let mut s = owner.clone();
    push_char(&mut s, '/');
    append_str(&mut s, repo.as_str());
    s
}

fn notices_for(statuses: &Vec<RepoAuthStatusEntry>) -> (r: Vec<AuthNotice>)
    ensures
        notice_views(r@) == auth_notices(statuses@),
{
    let mut notices: Vec<AuthNotice> = Vec::new();
    let mut i: usize = 0;
    proof {
        assert(statuses@.skip(0) =~= statuses@);
        assert(notice_views(notices@) =~= Seq::<AuthNoticeView>::empty());
        assert(notice_views(notices@) + auth_notices(statuses@) =~= auth_notices(statuses@));
    }
    while i < statuses.len()
        invariant
            i <= statuses@.len(),
            auth_notices(statuses@) == notice_views(notices@) + auth_notices(statuses@.skip(i as int)),
        decreases statuses@.len() - i,
    {
        let s = &statuses[i];
        proof {
            assert(statuses@.skip(i as int).drop_first() =~= statuses@.skip(i + 1));
            assert(statuses@.skip(i as int)[0] == statuses@[i as int]);
        }
        match s.status {
            RepoAuthStatus::Success => {},
            RepoAuthStatus::NoInstallationOrAccessForRepo => {
                if !s.is_public {
                    let ghost before = notices@;
                    notices.push(AuthNotice::CannotAccessPrivateRepo { repo: slug(&s.owner, &s.repo) });
                    proof {
                        assert(notice_views(notices@) =~= notice_views(before).push(notices@.last()@));
                    }
                }
            },
            RepoAuthStatus::UserNotConnectedToGithub => {
                let ghost before = notices@;
                notices.push(AuthNotice::GithubNotConnected);
                proof {
                    assert(notice_views(notices@) =~= notice_views(before).push(AuthNoticeView::GithubNotConnected));
                }
                return notices;
            },
        }
        i = i + 1;
    }
    proof {
        assert(statuses@.skip(i as int) =~= Seq::<RepoAuthStatusEntry>::empty());
    }
    notices
}

fn begin(attempt: u32) -> (r: AuthAction)
    ensures
        r == begin_action(attempt),
{
    if attempt > MAX_AUTH_ATTEMPTS {
        AuthAction::Fail(AuthFailure::MaxAttempts)
    } else {
        AuthAction::CheckStatus
    }
}

/// The next step of an authorization: an attempt starts with a status check, unless
/// the attempts are used up; a check that finds no private repository out of reach and
/// a connected GitHub lists the agents; otherwise the server's offer decides: open and
/// wait for an OAuth transaction, show a link to authorize at, or fail; a completed
/// authorization starts the next attempt; every other outcome fails.
pub fn auth_step(state: AuthFlowState, event: AuthEvent) -> (r: AuthStep)
    requires
        event matches AuthEvent::PollFinished(OauthPollOutcome::Completed) ==> state.attempt < u32::MAX,
    ensures
        (r.state, notice_views(r.notices@), r.action) == auth_step_spec(state, event),
{
    let empty: Vec<AuthNotice> = Vec::new();
    proof {
        assert(notice_views(empty@) =~= Seq::<AuthNoticeView>::empty());
    }
    match event {
        AuthEvent::Begin => AuthStep { state, notices: empty, action: begin(state.attempt) },
        AuthEvent::StatusChecked { statuses, auth_url, tx_id } => {
            let notices = notices_for(&statuses);
            let action = if notices.len() == 0 {
                AuthAction::ListAgents
            } else {
                match (auth_url, tx_id) {
                    (Some(u), Some(t)) => AuthAction::OpenAndPoll { auth_url: u, tx_id: t },
                    (Some(u), None) => AuthAction::ShowAuthorizeLink { auth_url: u },
                    _ => AuthAction::Fail(AuthFailure::NoAuthFlow),
                }
            };
            AuthStep { state, notices, action }
        },
        AuthEvent::CheckFailed(e) => AuthStep { state, notices: empty, action: AuthAction::Fail(AuthFailure::CheckFailed(e)) },
        AuthEvent::PollFinished(outcome) => match outcome {
            OauthPollOutcome::Completed => {
                let next = AuthFlowState { attempt: state.attempt + 1 };
                AuthStep { state: next, notices: empty, action: begin(next.attempt) }
            },
            OauthPollOutcome::Failed => AuthStep {
                state,
                notices: empty,
                action: AuthAction::Fail(AuthFailure::AuthorizationFailed),
            },
            OauthPollOutcome::Expired => AuthStep {
                state,
                notices: empty,
                action: AuthAction::Fail(AuthFailure::AuthorizationExpired),
            },
            OauthPollOutcome::Unexpected => AuthStep {
                state,
                notices: empty,
                action: AuthAction::Fail(AuthFailure::UnexpectedStatus),
            },
            OauthPollOutcome::Error(e) => AuthStep {
                state,
                notices: empty,
                action: AuthAction::Fail(AuthFailure::PollingFailed(e)),
            },
        },
    }
}

/// The catalog key of a notice's message.
pub open spec fn notice_key(n: AuthNoticeView) -> &'static str {
    match n {
        AuthNoticeView::CannotAccessPrivateRepo(_) => "agent_sdk.agent_config.error.cannot_access_private_repo",
        AuthNoticeView::GithubNotConnected => "agent_sdk.agent_config.error.github_not_connected",
    }
}

/// The placeholder values of a notice's message.
pub open spec fn notice_args(n: AuthNoticeView) -> Seq<(Seq<char>, Seq<char>)> {
    match n {
        AuthNoticeView::CannotAccessPrivateRepo(repo) => seq![("repo"@, repo)],
        AuthNoticeView::GithubNotConnected => seq![],
    }
}

/// The message of a notice in `locale`.
pub fn notice_message(bundle: &CatalogBundle, locale: LocaleId, notice: &AuthNotice) -> (r: Result<String, TemplateError>)
    ensures
        outcome_of(r) == message_outcome(bundle_text(bundle, locale, notice_key(notice@)@), notice_args(notice@)),
{
    match notice {
        AuthNotice::CannotAccessPrivateRepo { repo } => {
            let args = [("repo", repo.as_str())];
            let r = text_for_locale_with_args(
                bundle,
                locale,
                "agent_sdk.agent_config.error.cannot_access_private_repo",
                &args,
            );
            proof {
                reveal_strlit("repo");
                assert(arg_views(args@) =~= notice_args(notice@));
            }
            r
        },
        AuthNotice::GithubNotConnected => Ok(
            text_for_locale(bundle, locale, "agent_sdk.agent_config.error.github_not_connected"),
        ),
    }
}

/// The catalog key of a failure's message.
pub open spec fn failure_key(f: AuthFailure) -> &'static str {
    match f {
        AuthFailure::MaxAttempts => "agent_sdk.agent_config.error.max_auth_attempts",
        AuthFailure::CheckFailed(_) => "agent_sdk.agent_config.error.check_github_auth_status_failed",
        AuthFailure::AuthorizationFailed => "agent_sdk.agent_config.error.github_authorization_failed",
        AuthFailure::AuthorizationExpired => "agent_sdk.agent_config.error.github_authorization_expired",
        AuthFailure::UnexpectedStatus => "agent_sdk.oauth.error.unexpected_status",
        AuthFailure::PollingFailed(_) => "agent_sdk.oauth.error.polling_status",
        AuthFailure::NoAuthFlow => "agent_sdk.agent_config.error.no_auth_flow",
    }
}

/// The placeholder values of a failure's message.
pub open spec fn failure_args(f: AuthFailure) -> Seq<(Seq<char>, Seq<char>)> {
    match f {
        AuthFailure::MaxAttempts => seq![("max_attempts"@, decimal(MAX_AUTH_ATTEMPTS as int))],
        AuthFailure::PollingFailed(e) => seq![("error"@, e@)],
        _ => seq![],
    }
}

/// The message of a failure in `locale`. A failed status check is reported by its own
/// message, with the error's text as the cause.
pub fn failure_message(bundle: &CatalogBundle, locale: LocaleId, failure: &AuthFailure) -> (r: Result<String, TemplateError>)
    ensures
        outcome_of(r) == message_outcome(bundle_text(bundle, locale, failure_key(*failure)@), failure_args(*failure)),
{
    match failure {
        AuthFailure::MaxAttempts => {
            let max = decimal_u64(MAX_AUTH_ATTEMPTS as u64);
            let args = [("max_attempts", max.as_str())];
            let r = text_for_locale_with_args(bundle, locale, "agent_sdk.agent_config.error.max_auth_attempts", &args);
            proof {
                reveal_strlit("max_attempts");
                assert(arg_views(args@) =~= failure_args(*failure));
            }
            r
        },
        AuthFailure::PollingFailed(e) => {
            let args = [("error", e.as_str())];
            let r = text_for_locale_with_args(bundle, locale, "agent_sdk.oauth.error.polling_status", &args);
            proof {
                reveal_strlit("error");
                assert(arg_views(args@) =~= failure_args(*failure));
            }
            r
        },
        _ => {
            let key = match failure {
                AuthFailure::CheckFailed(_) => "agent_sdk.agent_config.error.check_github_auth_status_failed",
                AuthFailure::AuthorizationFailed => "agent_sdk.agent_config.error.github_authorization_failed",
                AuthFailure::AuthorizationExpired => "agent_sdk.agent_config.error.github_authorization_expired",
                AuthFailure::UnexpectedStatus => "agent_sdk.oauth.error.unexpected_status",
                _ => "agent_sdk.agent_config.error.no_auth_flow",
            };
            Ok(text_for_locale(bundle, locale, key))
        },
    }
}

/// An environment that an agent variant runs in.
#[derive(Clone, Debug, PartialEq, Eq)]
pub struct AgentEnvironment {
    pub name: String,
    pub uid: String,
}

/// One variant of an agent.
#[derive(Clone, Debug, PartialEq, Eq)]
pub struct AgentVariant {
    pub id: String,
    pub description: String,
    pub base_prompt: String,
    pub source_owner: String,
    pub source_name: String,
    pub environments: Vec<AgentEnvironment>,
}

/// An agent and its variants.
#[derive(Clone, Debug, PartialEq, Eq)]
pub struct AgentSkillItem {
    pub name: String,
    pub variants: Vec<AgentVariant>,
}

/// The heading of an agent listing.
#[derive(Clone, Copy, Debug, PartialEq, Eq, Structural)]
pub enum AgentsHeader {
    NoAgentsFound,
    OneAgent,
    Agents(usize),
}

/// The heading for `count` agents.
pub fn agents_header(count: usize) -> (r: AgentsHeader)
    ensures
        r == (if count == 0 {
            AgentsHeader::NoAgentsFound
        } else if count == 1 {
            AgentsHeader::OneAgent
        } else {
            AgentsHeader::Agents(count)
        }),
{
    if count == 0 {
        AgentsHeader::NoAgentsFound
    } else if count == 1 {
        AgentsHeader::OneAgent
    } else {
        AgentsHeader::Agents(count)
    }
}

/// How many characters of a base prompt a card shows.
pub const BASE_PROMPT_PREVIEW_CHARS: usize = 100;

/// A base prompt as a card shows it: its first characters, with `...` when some were
/// left out.
pub open spec fn prompt_preview(p: Seq<char>) -> Seq<char> {
    if p.len() > BASE_PROMPT_PREVIEW_CHARS {
        p.take(BASE_PROMPT_PREVIEW_CHARS as int) + seq!['.', '.', '.']
    } else {
        p
    }
}

/// The base prompt as a card shows it.
pub fn truncate_base_prompt(prompt: &str) -> (r: String)
    ensures
        r@ == prompt_preview(prompt@),
{
    let v = chars_of(prompt);
    if v.len() > BASE_PROMPT_PREVIEW_CHARS {
        let mut s = string_from_chars(&v, 0, BASE_PROMPT_PREVIEW_CHARS);
        push_char(&mut s, '.');
        push_char(&mut s, '.');
        push_char(&mut s, '.');
        proof {
            assert(v@.subrange(0, BASE_PROMPT_PREVIEW_CHARS as int) =~= v@.take(BASE_PROMPT_PREVIEW_CHARS as int));
            assert(s@ =~= prompt_preview(prompt@));
        }
        s
    } else {
        string_from_chars(&v, 0, v.len())
    }
}

/// `name (uid)`.
pub open spec fn environment_entry(e: AgentEnvironment) -> Seq<char> {
    e.name@ + seq![' ', '('] + e.uid@ + seq![')']
}

/// The entries of environments, separated by `, `.
pub open spec fn joined_environments(es: Seq<AgentEnvironment>) -> Seq<char>
    decreases es.len(),
{
    if es.len() == 0 {
        seq![]
    } else if es.len() == 1 {
        environment_entry(es[0])
    } else {
        joined_environments(es.drop_last()) + seq![',', ' '] + environment_entry(es.last())
    }
}

/// A row of an agent variant's card.
#[derive(Clone, Debug, PartialEq, Eq)]
pub enum VariantRow {
    Id(String),
    Description(String),
    BasePrompt(String),
    Source(String),
    Environments(String),
}

/// A row as a spec value.
pub ghost enum VariantRowView {
    Id(Seq<char>),
    Description(Seq<char>),
    BasePrompt(Seq<char>),
    Source(Seq<char>),
    Environments(Seq<char>),
}

impl View for VariantRow {
    type V = VariantRowView;

    open spec fn view(&self) -> VariantRowView {
        match self {
            VariantRow::Id(s) => VariantRowView::Id(s@),
            VariantRow::Description(s) => VariantRowView::Description(s@),
            VariantRow::BasePrompt(s) => VariantRowView::BasePrompt(s@),
            VariantRow::Source(s) => VariantRowView::Source(s@),
            VariantRow::Environments(s) => VariantRowView::Environments(s@),
        }
    }
}

/// The rows of a variant's card: its id; its description and base prompt when they are
/// not empty; its source `owner/name`; its environments when it has any.
pub open spec fn variant_rows_spec(v: AgentVariant) -> Seq<VariantRowView> {
    seq![VariantRowView::Id(v.id@)]
        + (if v.description@.len() == 0 { seq![] } else { seq![VariantRowView::Description(v.description@)] })
        + (if v.base_prompt@.len() == 0 {
        seq![]
    } else {
        seq![VariantRowView::BasePrompt(prompt_preview(v.base_prompt@))]
    }) + seq![VariantRowView::Source(repo_slug(v.source_owner@, v.source_name@))] + (if v.environments@.len() == 0 {
        seq![]
    } else {
        seq![VariantRowView::Environments(joined_environments(v.environments@))]
    })
}

fn join_environments(es: &Vec<AgentEnvironment>) -> (r: String)
    ensures
        r@ == joined_environments(es@),
{
    let mut s = String::new();
    let mut i: usize = 0;
    while i < es.len()
        invariant
            i <= es@.len(),
            s@ == joined_environments(es@.take(i as int)),
        decreases es@.len() - i,
    {
        let ghost before = s@;
        if i > 0 {
            push_char(&mut s, ',');
            push_char(&mut s, ' ');
        }
        append_str(&mut s, es[i].name.as_str());
        push_char(&mut s, ' ');
        push_char(&mut s, '(');
        append_str(&mut s, es[i].uid.as_str());
        push_char(&mut s, ')');
        proof {
            let t = es@.take(i + 1);
            assert(t.drop_last() =~= es@.take(i as int));
            assert(t.last() == es@[i as int]);
            if i == 0 {
                assert(s@ =~= environment_entry(es@[0]));
            } else {
                assert(s@ =~= before + seq![',', ' '] + environment_entry(es@[i as int]));
            }
        }
        i = i + 1;
    }
    proof {
        assert(es@.take(es@.len() as int) =~= es@);
    }
    s
}

/// The rows of a variant's card.
pub fn variant_rows(v: &AgentVariant) -> (r: Vec<VariantRow>)
    ensures
        r@.map_values(|x: VariantRow| x@) == variant_rows_spec(*v),
{
    let mut rows: Vec<VariantRow> = Vec::new();
    rows.push(VariantRow::Id(v.id.clone()));
    if v.description.as_str().unicode_len() > 0 {
        rows.push(VariantRow::Description(v.description.clone()));
    }
    if v.base_prompt.as_str().unicode_len() > 0 {
        rows.push(VariantRow::BasePrompt(truncate_base_prompt(v.base_prompt.as_str())));
    }
    rows.push(VariantRow::Source(slug(&v.source_owner, &v.source_name)));
    if v.environments.len() > 0 {
        rows.push(VariantRow::Environments(join_environments(&v.environments)));
    }
    proof {
        assert(rows@.map_values(|x: VariantRow| x@) =~= variant_rows_spec(*v));
    }
    rows
}

} // verus!
