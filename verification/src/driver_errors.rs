//! How a failed agent run is reported: the task state, the status message and the
//! platform error code for each kind of driver error.

use vstd::prelude::*;

use crate::catalog::CatalogBundle;
use crate::locale::LocaleId;
use crate::localization::{bundle_text, text_for_locale, text_for_locale_with_args};
use crate::template::{arg_views, message_outcome, outcome_of, TemplateError, TemplateOutcome};
use crate::text::{decimal, decimal_i64};

verus! {

/// The state a task is reported in.
#[derive(Clone, Copy, Debug, PartialEq, Eq, Structural)]
pub enum AgentTaskState {
    Error,
    Failed,
    Cancelled,
    Blocked,
}

/// The error code reported with a failed task.
#[derive(Clone, Copy, Debug, PartialEq, Eq, Structural)]
pub enum PlatformErrorCode {
    InternalError,
    FeatureNotAvailable,
    AuthenticationRequired,
    EnvironmentSetupFailed,
    ResourceNotFound,
}

/// A status update: a message, with an error code unless the run merely stopped.
#[derive(Clone, Debug, PartialEq, Eq)]
pub struct TaskStatusUpdate {
    pub message: String,
    pub error_code: Option<PlatformErrorCode>,
}

/// Why sharing the session of a run failed.
#[derive(Clone, Debug, PartialEq, Eq)]
pub enum ShareSessionError {
    Internal(String),
    Failed(String),
    Disabled,
    Timeout,
    Interrupted,
}

/// Why an agent run could not go on. Errors of other components stand here as the
/// text they display; a conversation error carries the classification that the
/// conversation layer gave it and its display text.
#[allow(inconsistent_fields)]
#[derive(Clone, Debug, PartialEq, Eq)]
pub enum AgentDriverError {
    TerminalUnavailable,
    InvalidRuntimeState,
    BootstrapFailed,
    ShareSessionFailed { error: ShareSessionError },
    WarpDriveSyncFailed,
    NotLoggedIn,
    CloudProviderSetupFailed(String),
    MCPServerNotFound(String),
    MCPStartupFailed,
    MCPJsonParseError(String),
    MCPMissingVariables,
    ProfileError(String),
    AIWorkflowNotFound(String),
    EnvironmentNotFound(String),
    EnvironmentSetupFailed(String),
    InvalidWorkingDirectory { path: String },
    ConversationError { state: AgentTaskState, update: Option<TaskStatusUpdate>, message: String },
    ConversationCancelled,
    ConversationBlocked { blocked_action: String },
    TeamMetadataRefreshTimeout,
    SkillResolutionFailed(String),
    ConfigBuildFailed(String),
    PromptResolutionFailed(String),
    SecretsFetchFailed(String),
    AwsBedrockCredentialsFailed(String),
    ConversationLoadFailed(String),
    ConversationHarnessMismatch { conversation_id: String, expected: String, got: String },
    TaskHarnessMismatch { task_id: String, expected: String, got: String },
    ConversationResumeStateMissing { harness: String, conversation_id: String },
    HarnessCommandFailed { exit_code: i32 },
    HarnessSetupFailed { harness: String, reason: String },
    HarnessConfigSetupFailed { harness: String, error: String },
    HarnessAuthCheckFailed { harness: String, detail: String },
    HarnessRuntimeFailureDetected { harness: String, pattern: String, excerpt: String },
}

/// The message of a classification: a catalog key with its arguments, or a text.
#[derive(Clone, Debug, PartialEq, Eq)]
pub enum StatusMessage {
    Localized { key: &'static str, args: Vec<(&'static str, String)> },
    Text(String),
}

/// How a driver error is reported, before its message is looked up.
#[derive(Clone, Debug, PartialEq, Eq)]
pub struct Classification {
    pub state: AgentTaskState,
    pub message: StatusMessage,
    pub error_code: Option<PlatformErrorCode>,
}

/// A status message over character sequences.
#[verifier::ext_equal]
pub enum MessageView {
    Localized(&'static str, Seq<(Seq<char>, Seq<char>)>),
    Text(Seq<char>),
}

pub open spec fn message_view(m: StatusMessage) -> MessageView {
    match m {
        StatusMessage::Localized { key, args } => MessageView::Localized(key, owned_arg_views(args@)),
        StatusMessage::Text(s) => MessageView::Text(s@),
    }
}

/// The arguments of a localized message as (name, value) character sequences.
pub open spec fn owned_arg_views(args: Seq<(&'static str, String)>) -> Seq<(Seq<char>, Seq<char>)> {
    args.map_values(|a: (&'static str, String)| (a.0@, a.1@))
}

/// How a driver error is reported; `bin` is the name of the CLI binary.
pub open spec fn classification_spec(e: AgentDriverError, bin: Seq<char>) -> (
    AgentTaskState,
    MessageView,
    Option<PlatformErrorCode>,
) {
    match e {
        AgentDriverError::ConversationError { state, update, message } => match update {
            Some(u) => (state, MessageView::Text(u.message@), u.error_code),
            None => (state, MessageView::Text(message@), Some(PlatformErrorCode::InternalError)),
        },
        AgentDriverError::TerminalUnavailable => (
            AgentTaskState::Error,
            MessageView::Localized("agent_sdk.driver.error_classification.internal_error", Seq::empty()),
            Some(PlatformErrorCode::InternalError),
        ),
        AgentDriverError::InvalidRuntimeState => (
            AgentTaskState::Error,
            MessageView::Localized("agent_sdk.driver.error_classification.internal_error", Seq::empty()),
            Some(PlatformErrorCode::InternalError),
        ),
        AgentDriverError::BootstrapFailed => (
            AgentTaskState::Error,
            MessageView::Localized("agent_sdk.driver.error_classification.bootstrap_failed", Seq::empty()),
            Some(PlatformErrorCode::InternalError),
        ),
        AgentDriverError::ShareSessionFailed { error: ShareSessionError::Internal(_) } => (
            AgentTaskState::Error,
            MessageView::Localized("agent_sdk.driver.error_classification.share_internal", Seq::empty()),
            Some(PlatformErrorCode::InternalError),
        ),
        AgentDriverError::ShareSessionFailed { error: ShareSessionError::Failed(reason) } => (
            AgentTaskState::Error,
            MessageView::Localized("agent_sdk.driver.error_classification.share_failed", seq![("reason"@, reason@)]),
            Some(PlatformErrorCode::InternalError),
        ),
        AgentDriverError::ShareSessionFailed { error: ShareSessionError::Disabled } => (
            AgentTaskState::Error,
            MessageView::Localized("agent_sdk.driver.error_classification.share_disabled", Seq::empty()),
            Some(PlatformErrorCode::FeatureNotAvailable),
        ),
        AgentDriverError::ShareSessionFailed { error: ShareSessionError::Timeout } => (
            AgentTaskState::Error,
            MessageView::Localized("agent_sdk.driver.error_classification.share_timeout", Seq::empty()),
            Some(PlatformErrorCode::InternalError),
        ),
        AgentDriverError::ShareSessionFailed { error: ShareSessionError::Interrupted } => (
            AgentTaskState::Error,
            MessageView::Localized("agent_sdk.driver.error_classification.share_interrupted", Seq::empty()),
            Some(PlatformErrorCode::InternalError),
        ),
        AgentDriverError::WarpDriveSyncFailed => (
            AgentTaskState::Error,
            MessageView::Localized("agent_sdk.driver.error_classification.warp_drive_sync_failed", Seq::empty()),
            Some(PlatformErrorCode::InternalError),
        ),
        AgentDriverError::NotLoggedIn => (
            AgentTaskState::Error,
            MessageView::Localized("agent_sdk.driver.error_classification.not_logged_in", seq![("bin"@, bin)]),
            Some(PlatformErrorCode::AuthenticationRequired),
        ),
        AgentDriverError::CloudProviderSetupFailed(error) => (
            AgentTaskState::Error,
            MessageView::Localized("agent_sdk.driver.error_classification.cloud_provider_setup_failed", seq![("error"@, error@)]),
            Some(PlatformErrorCode::InternalError),
        ),
        AgentDriverError::MCPServerNotFound(uuid) => (
            AgentTaskState::Failed,
            MessageView::Localized("agent_sdk.driver.error_classification.mcp_server_not_found", seq![("uuid"@, uuid@)]),
            Some(PlatformErrorCode::EnvironmentSetupFailed),
        ),
        AgentDriverError::MCPStartupFailed => (
            AgentTaskState::Failed,
            MessageView::Localized("agent_sdk.driver.error_classification.mcp_startup_failed", Seq::empty()),
            Some(PlatformErrorCode::EnvironmentSetupFailed),
        ),
        AgentDriverError::MCPJsonParseError(message) => (
            AgentTaskState::Failed,
            MessageView::Localized("agent_sdk.driver.error_classification.mcp_json_parse_error", seq![("message"@, message@)]),
            Some(PlatformErrorCode::EnvironmentSetupFailed),
        ),
        AgentDriverError::MCPMissingVariables => (
            AgentTaskState::Failed,
            MessageView::Localized("agent_sdk.driver.error_classification.mcp_missing_variables", Seq::empty()),
            Some(PlatformErrorCode::EnvironmentSetupFailed),
        ),
        AgentDriverError::ProfileError(name) => (
            AgentTaskState::Failed,
            MessageView::Localized("agent_sdk.driver.error_classification.profile_not_found", seq![("name"@, name@)]),
            Some(PlatformErrorCode::ResourceNotFound),
        ),
        AgentDriverError::AIWorkflowNotFound(id) => (
            AgentTaskState::Failed,
            MessageView::Localized("agent_sdk.driver.error_classification.saved_prompt_not_found", seq![("id"@, id@)]),
            Some(PlatformErrorCode::ResourceNotFound),
        ),
        AgentDriverError::EnvironmentNotFound(id) => (
            AgentTaskState::Failed,
            MessageView::Localized("agent_sdk.driver.error_classification.environment_not_found", seq![("id"@, id@)]),
            Some(PlatformErrorCode::ResourceNotFound),
        ),
        AgentDriverError::EnvironmentSetupFailed(message) => (
            AgentTaskState::Failed,
            MessageView::Localized("agent_sdk.driver.error_classification.environment_setup_failed", seq![("message"@, message@)]),
            Some(PlatformErrorCode::EnvironmentSetupFailed),
        ),
        AgentDriverError::InvalidWorkingDirectory { path } => (
            AgentTaskState::Failed,
            MessageView::Localized("agent_sdk.driver.error_classification.invalid_working_directory", seq![("path"@, path@)]),
            Some(PlatformErrorCode::EnvironmentSetupFailed),
        ),
        AgentDriverError::ConversationCancelled => (
            AgentTaskState::Cancelled,
            MessageView::Localized("agent_sdk.driver.error_classification.conversation_cancelled", Seq::empty()),
            None,
        ),
        AgentDriverError::ConversationBlocked { blocked_action } => (
            AgentTaskState::Blocked,
            MessageView::Localized("agent_sdk.driver.error_classification.conversation_blocked", seq![("blocked_action"@, blocked_action@)]),
            None,
        ),
        AgentDriverError::TeamMetadataRefreshTimeout => (
            AgentTaskState::Error,
            MessageView::Localized("agent_sdk.driver.error_classification.team_metadata_refresh_timeout", Seq::empty()),
            Some(PlatformErrorCode::InternalError),
        ),
        AgentDriverError::SkillResolutionFailed(message) => (
            AgentTaskState::Failed,
            MessageView::Localized("agent_sdk.driver.error_classification.skill_resolution_failed", seq![("message"@, message@)]),
            Some(PlatformErrorCode::ResourceNotFound),
        ),
        AgentDriverError::ConfigBuildFailed(error) => (
            AgentTaskState::Failed,
            MessageView::Localized("agent_sdk.driver.error_classification.config_build_failed", seq![("error"@, error@)]),
            Some(PlatformErrorCode::EnvironmentSetupFailed),
        ),
        AgentDriverError::PromptResolutionFailed(error) => (
            AgentTaskState::Error,
            MessageView::Localized("agent_sdk.driver.error_classification.prompt_resolution_failed", seq![("error"@, error@)]),
            Some(PlatformErrorCode::InternalError),
        ),
        AgentDriverError::SecretsFetchFailed(error) => (
            AgentTaskState::Error,
            MessageView::Localized("agent_sdk.driver.error_classification.secrets_fetch_failed", seq![("error"@, error@)]),
            Some(PlatformErrorCode::InternalError),
        ),
        AgentDriverError::AwsBedrockCredentialsFailed(message) => (
            AgentTaskState::Failed,
            MessageView::Localized("agent_sdk.driver.error_classification.aws_bedrock_credentials_failed", seq![("message"@, message@)]),
            Some(PlatformErrorCode::EnvironmentSetupFailed),
        ),
        AgentDriverError::ConversationLoadFailed(message) => (
            AgentTaskState::Error,
            MessageView::Localized("agent_sdk.driver.error_classification.conversation_load_failed", seq![("message"@, message@)]),
            Some(PlatformErrorCode::InternalError),
        ),
        AgentDriverError::ConversationHarnessMismatch { conversation_id, expected, got } => (
            AgentTaskState::Failed,
            MessageView::Localized("agent_sdk.driver.error_classification.conversation_harness_mismatch", seq![("conversation_id"@, conversation_id@), ("expected"@, expected@), ("got"@, got@)]),
            Some(PlatformErrorCode::EnvironmentSetupFailed),
        ),
        AgentDriverError::TaskHarnessMismatch { task_id, expected, got } => (
            AgentTaskState::Failed,
            MessageView::Localized("agent_sdk.driver.error_classification.task_harness_mismatch", seq![("task_id"@, task_id@), ("expected"@, expected@), ("got"@, got@)]),
            Some(PlatformErrorCode::EnvironmentSetupFailed),
        ),
        AgentDriverError::ConversationResumeStateMissing { harness, conversation_id } => (
            AgentTaskState::Failed,
            MessageView::Localized("agent_sdk.driver.error_classification.conversation_resume_state_missing", seq![("conversation_id"@, conversation_id@), ("harness"@, harness@)]),
            Some(PlatformErrorCode::ResourceNotFound),
        ),
        AgentDriverError::HarnessCommandFailed { exit_code } => (
            AgentTaskState::Failed,
            MessageView::Localized("agent_sdk.driver.error_classification.harness_command_failed", seq![("exit_code"@, decimal(exit_code as int))]),
            Some(PlatformErrorCode::InternalError),
        ),
        AgentDriverError::HarnessSetupFailed { harness, reason } => (
            AgentTaskState::Failed,
            MessageView::Localized("agent_sdk.driver.error_classification.harness_setup_failed", seq![("harness"@, harness@), ("reason"@, reason@)]),
            Some(PlatformErrorCode::EnvironmentSetupFailed),
        ),
        AgentDriverError::HarnessConfigSetupFailed { harness, error } => (
            AgentTaskState::Failed,
            MessageView::Localized("agent_sdk.driver.error_classification.harness_config_setup_failed", seq![("harness"@, harness@), ("error"@, error@)]),
            Some(PlatformErrorCode::EnvironmentSetupFailed),
        ),
        AgentDriverError::HarnessAuthCheckFailed { harness, detail: _ } => (
            AgentTaskState::Failed,
            MessageView::Localized("agent_sdk.driver.error_classification.harness_auth_check_failed", seq![("harness"@, harness@)]),
            Some(PlatformErrorCode::AuthenticationRequired),
        ),
        AgentDriverError::HarnessRuntimeFailureDetected { harness, pattern, excerpt } => (
            AgentTaskState::Failed,
            MessageView::Localized("agent_sdk.driver.error_classification.harness_runtime_failure_detected", seq![("harness"@, harness@), ("pattern"@, pattern@), ("excerpt"@, excerpt@)]),
            Some(PlatformErrorCode::AuthenticationRequired),
        ),
    }
}

/// The name of the CLI binary, `warp` when it is not known.
pub open spec fn binary_name_or_default(binary_name: Option<String>) -> Seq<char> {
    match binary_name {
        Some(b) => b@,
        None => "warp"@,
    }
}

/// Classifies a driver error: the task state, the message to report and the error code.
pub fn classify(error: &AgentDriverError, binary_name: Option<String>) -> (r: Classification)
    ensures
        r.state == classification_spec(*error, binary_name_or_default(binary_name)).0,
        message_view(r.message) =~~= classification_spec(*error, binary_name_or_default(binary_name)).1,
        r.error_code == classification_spec(*error, binary_name_or_default(binary_name)).2,
{
    let bin = match binary_name {
        Some(b) => b,
        None => "warp".to_owned(),
    };
    let r = match error {
        AgentDriverError::ConversationError { state, update, message } => match update {
            Some(u) => Classification {
                state: *state,
                message: StatusMessage::Text(u.message.clone()),
                error_code: u.error_code,
            },
            None => Classification {
                state: *state,
                message: StatusMessage::Text(message.clone()),
                error_code: Some(PlatformErrorCode::InternalError),
            },
        },
        AgentDriverError::TerminalUnavailable => Classification {
            state: AgentTaskState::Error,
            message: StatusMessage::Localized { key: "agent_sdk.driver.error_classification.internal_error", args: Vec::new() },
            error_code: Some(PlatformErrorCode::InternalError),
        },
        AgentDriverError::InvalidRuntimeState => Classification {
            state: AgentTaskState::Error,
            message: StatusMessage::Localized { key: "agent_sdk.driver.error_classification.internal_error", args: Vec::new() },
            error_code: Some(PlatformErrorCode::InternalError),
        },
        AgentDriverError::BootstrapFailed => Classification {
            state: AgentTaskState::Error,
            message: StatusMessage::Localized { key: "agent_sdk.driver.error_classification.bootstrap_failed", args: Vec::new() },
            error_code: Some(PlatformErrorCode::InternalError),
        },
        AgentDriverError::ShareSessionFailed { error: ShareSessionError::Internal(_) } => Classification {
            state: AgentTaskState::Error,
            message: StatusMessage::Localized { key: "agent_sdk.driver.error_classification.share_internal", args: Vec::new() },
            error_code: Some(PlatformErrorCode::InternalError),
        },
        AgentDriverError::ShareSessionFailed { error: ShareSessionError::Failed(reason) } => Classification {
            state: AgentTaskState::Error,
            message: StatusMessage::Localized { key: "agent_sdk.driver.error_classification.share_failed", args: vec![("reason", reason.clone())] },
            error_code: Some(PlatformErrorCode::InternalError),
        },
        AgentDriverError::ShareSessionFailed { error: ShareSessionError::Disabled } => Classification {
            state: AgentTaskState::Error,
            message: StatusMessage::Localized { key: "agent_sdk.driver.error_classification.share_disabled", args: Vec::new() },
            error_code: Some(PlatformErrorCode::FeatureNotAvailable),
        },
        AgentDriverError::ShareSessionFailed { error: ShareSessionError::Timeout } => Classification {
            state: AgentTaskState::Error,
            message: StatusMessage::Localized { key: "agent_sdk.driver.error_classification.share_timeout", args: Vec::new() },
            error_code: Some(PlatformErrorCode::InternalError),
        },
        AgentDriverError::ShareSessionFailed { error: ShareSessionError::Interrupted } => Classification {
            state: AgentTaskState::Error,
            message: StatusMessage::Localized { key: "agent_sdk.driver.error_classification.share_interrupted", args: Vec::new() },
            error_code: Some(PlatformErrorCode::InternalError),
        },
        AgentDriverError::WarpDriveSyncFailed => Classification {
            state: AgentTaskState::Error,
            message: StatusMessage::Localized { key: "agent_sdk.driver.error_classification.warp_drive_sync_failed", args: Vec::new() },
            error_code: Some(PlatformErrorCode::InternalError),
        },
        AgentDriverError::NotLoggedIn => Classification {
            state: AgentTaskState::Error,
            message: StatusMessage::Localized { key: "agent_sdk.driver.error_classification.not_logged_in", args: vec![("bin", bin.clone())] },
            error_code: Some(PlatformErrorCode::AuthenticationRequired),
        },
        AgentDriverError::CloudProviderSetupFailed(error) => Classification {
            state: AgentTaskState::Error,
            message: StatusMessage::Localized { key: "agent_sdk.driver.error_classification.cloud_provider_setup_failed", args: vec![("error", error.clone())] },
            error_code: Some(PlatformErrorCode::InternalError),
        },
        AgentDriverError::MCPServerNotFound(uuid) => Classification {
            state: AgentTaskState::Failed,
            message: StatusMessage::Localized { key: "agent_sdk.driver.error_classification.mcp_server_not_found", args: vec![("uuid", uuid.clone())] },
            error_code: Some(PlatformErrorCode::EnvironmentSetupFailed),
        },
        AgentDriverError::MCPStartupFailed => Classification {
            state: AgentTaskState::Failed,
            message: StatusMessage::Localized { key: "agent_sdk.driver.error_classification.mcp_startup_failed", args: Vec::new() },
            error_code: Some(PlatformErrorCode::EnvironmentSetupFailed),
        },
        AgentDriverError::MCPJsonParseError(message) => Classification {
            state: AgentTaskState::Failed,
            message: StatusMessage::Localized { key: "agent_sdk.driver.error_classification.mcp_json_parse_error", args: vec![("message", message.clone())] },
            error_code: Some(PlatformErrorCode::EnvironmentSetupFailed),
        },
        AgentDriverError::MCPMissingVariables => Classification {
            state: AgentTaskState::Failed,
            message: StatusMessage::Localized { key: "agent_sdk.driver.error_classification.mcp_missing_variables", args: Vec::new() },
            error_code: Some(PlatformErrorCode::EnvironmentSetupFailed),
        },
        AgentDriverError::ProfileError(name) => Classification {
            state: AgentTaskState::Failed,
            message: StatusMessage::Localized { key: "agent_sdk.driver.error_classification.profile_not_found", args: vec![("name", name.clone())] },
            error_code: Some(PlatformErrorCode::ResourceNotFound),
        },
        AgentDriverError::AIWorkflowNotFound(id) => Classification {
            state: AgentTaskState::Failed,
            message: StatusMessage::Localized { key: "agent_sdk.driver.error_classification.saved_prompt_not_found", args: vec![("id", id.clone())] },
            error_code: Some(PlatformErrorCode::ResourceNotFound),
        },
        AgentDriverError::EnvironmentNotFound(id) => Classification {
            state: AgentTaskState::Failed,
            message: StatusMessage::Localized { key: "agent_sdk.driver.error_classification.environment_not_found", args: vec![("id", id.clone())] },
            error_code: Some(PlatformErrorCode::ResourceNotFound),
        },
        AgentDriverError::EnvironmentSetupFailed(message) => Classification {
            state: AgentTaskState::Failed,
            message: StatusMessage::Localized { key: "agent_sdk.driver.error_classification.environment_setup_failed", args: vec![("message", message.clone())] },
            error_code: Some(PlatformErrorCode::EnvironmentSetupFailed),
        },
        AgentDriverError::InvalidWorkingDirectory { path } => Classification {
            state: AgentTaskState::Failed,
            message: StatusMessage::Localized { key: "agent_sdk.driver.error_classification.invalid_working_directory", args: vec![("path", path.clone())] },
            error_code: Some(PlatformErrorCode::EnvironmentSetupFailed),
        },
        AgentDriverError::ConversationCancelled => Classification {
            state: AgentTaskState::Cancelled,
            message: StatusMessage::Localized { key: "agent_sdk.driver.error_classification.conversation_cancelled", args: Vec::new() },
            error_code: None,
        },
        AgentDriverError::ConversationBlocked { blocked_action } => Classification {
            state: AgentTaskState::Blocked,
            message: StatusMessage::Localized { key: "agent_sdk.driver.error_classification.conversation_blocked", args: vec![("blocked_action", blocked_action.clone())] },
            error_code: None,
        },
        AgentDriverError::TeamMetadataRefreshTimeout => Classification {
            state: AgentTaskState::Error,
            message: StatusMessage::Localized { key: "agent_sdk.driver.error_classification.team_metadata_refresh_timeout", args: Vec::new() },
            error_code: Some(PlatformErrorCode::InternalError),
        },
        AgentDriverError::SkillResolutionFailed(message) => Classification {
            state: AgentTaskState::Failed,
            message: StatusMessage::Localized { key: "agent_sdk.driver.error_classification.skill_resolution_failed", args: vec![("message", message.clone())] },
            error_code: Some(PlatformErrorCode::ResourceNotFound),
        },
        AgentDriverError::ConfigBuildFailed(error) => Classification {
            state: AgentTaskState::Failed,
            message: StatusMessage::Localized { key: "agent_sdk.driver.error_classification.config_build_failed", args: vec![("error", error.clone())] },
            error_code: Some(PlatformErrorCode::EnvironmentSetupFailed),
        },
        AgentDriverError::PromptResolutionFailed(error) => Classification {
            state: AgentTaskState::Error,
            message: StatusMessage::Localized { key: "agent_sdk.driver.error_classification.prompt_resolution_failed", args: vec![("error", error.clone())] },
            error_code: Some(PlatformErrorCode::InternalError),
        },
        AgentDriverError::SecretsFetchFailed(error) => Classification {
            state: AgentTaskState::Error,
            message: StatusMessage::Localized { key: "agent_sdk.driver.error_classification.secrets_fetch_failed", args: vec![("error", error.clone())] },
            error_code: Some(PlatformErrorCode::InternalError),
        },
        AgentDriverError::AwsBedrockCredentialsFailed(message) => Classification {
            state: AgentTaskState::Failed,
            message: StatusMessage::Localized { key: "agent_sdk.driver.error_classification.aws_bedrock_credentials_failed", args: vec![("message", message.clone())] },
            error_code: Some(PlatformErrorCode::EnvironmentSetupFailed),
        },
        AgentDriverError::ConversationLoadFailed(message) => Classification {
            state: AgentTaskState::Error,
            message: StatusMessage::Localized { key: "agent_sdk.driver.error_classification.conversation_load_failed", args: vec![("message", message.clone())] },
            error_code: Some(PlatformErrorCode::InternalError),
        },
        AgentDriverError::ConversationHarnessMismatch { conversation_id, expected, got } => Classification {
            state: AgentTaskState::Failed,
            message: StatusMessage::Localized { key: "agent_sdk.driver.error_classification.conversation_harness_mismatch", args: vec![("conversation_id", conversation_id.clone()), ("expected", expected.clone()), ("got", got.clone())] },
            error_code: Some(PlatformErrorCode::EnvironmentSetupFailed),
        },
        AgentDriverError::TaskHarnessMismatch { task_id, expected, got } => Classification {
            state: AgentTaskState::Failed,
            message: StatusMessage::Localized { key: "agent_sdk.driver.error_classification.task_harness_mismatch", args: vec![("task_id", task_id.clone()), ("expected", expected.clone()), ("got", got.clone())] },
            error_code: Some(PlatformErrorCode::EnvironmentSetupFailed),
        },
        AgentDriverError::ConversationResumeStateMissing { harness, conversation_id } => Classification {
            state: AgentTaskState::Failed,
            message: StatusMessage::Localized { key: "agent_sdk.driver.error_classification.conversation_resume_state_missing", args: vec![("conversation_id", conversation_id.clone()), ("harness", harness.clone())] },
            error_code: Some(PlatformErrorCode::ResourceNotFound),
        },
        AgentDriverError::HarnessCommandFailed { exit_code } => Classification {
            state: AgentTaskState::Failed,
            message: StatusMessage::Localized { key: "agent_sdk.driver.error_classification.harness_command_failed", args: vec![("exit_code", decimal_i64(*exit_code as i64))] },
            error_code: Some(PlatformErrorCode::InternalError),
        },
        AgentDriverError::HarnessSetupFailed { harness, reason } => Classification {
            state: AgentTaskState::Failed,
            message: StatusMessage::Localized { key: "agent_sdk.driver.error_classification.harness_setup_failed", args: vec![("harness", harness.clone()), ("reason", reason.clone())] },
            error_code: Some(PlatformErrorCode::EnvironmentSetupFailed),
        },
        AgentDriverError::HarnessConfigSetupFailed { harness, error } => Classification {
            state: AgentTaskState::Failed,
            message: StatusMessage::Localized { key: "agent_sdk.driver.error_classification.harness_config_setup_failed", args: vec![("harness", harness.clone()), ("error", error.clone())] },
            error_code: Some(PlatformErrorCode::EnvironmentSetupFailed),
        },
        AgentDriverError::HarnessAuthCheckFailed { harness, detail: _ } => Classification {
            state: AgentTaskState::Failed,
            message: StatusMessage::Localized { key: "agent_sdk.driver.error_classification.harness_auth_check_failed", args: vec![("harness", harness.clone())] },
            error_code: Some(PlatformErrorCode::AuthenticationRequired),
        },
        AgentDriverError::HarnessRuntimeFailureDetected { harness, pattern, excerpt } => Classification {
            state: AgentTaskState::Failed,
            message: StatusMessage::Localized { key: "agent_sdk.driver.error_classification.harness_runtime_failure_detected", args: vec![("harness", harness.clone()), ("pattern", pattern.clone()), ("excerpt", excerpt.clone())] },
            error_code: Some(PlatformErrorCode::AuthenticationRequired),
        },
    };
    r
}

/// The arguments of a localized message, borrowed as string slices.
fn borrowed_args<'a>(args: &'a Vec<(&'static str, String)>) -> (r: Vec<(&'a str, &'a str)>)
    ensures
        arg_views(r@) == owned_arg_views(args@),
{
    let mut r: Vec<(&'a str, &'a str)> = Vec::new();
    let mut i: usize = 0;
    while i < args.len()
        invariant
            i <= args@.len(),
            r@.len() == i,
            arg_views(r@) == owned_arg_views(args@.take(i as int)),
        decreases args@.len() - i,
    {
        let pair = &args[i];
        let value = pair.1.as_str();
        let ghost before = r@;
        r.push((pair.0, value));
        proof {
            assert forall|k: int| 0 <= k < i + 1 implies #[trigger] arg_views(r@)[k]
                == owned_arg_views(args@.take(i + 1))[k] by {
                if k < i {
                    assert(r@[k] == before[k]);
                    assert(arg_views(before)[k] == owned_arg_views(args@.take(i as int))[k]);
                } else {
                    assert(r@[k] == (pair.0, value));
                    assert(args@.take(i + 1)[k] == args@[i as int]);
                }
            }
        }
        i = i + 1;
        assert(arg_views(r@) =~= owned_arg_views(args@.take(i as int)));
    }
    assert(args@.take(args@.len() as int) =~= args@);
    r
}

/// The message text of a status message, looked up in `en-US`: a message without
/// arguments is the catalog text as it stands; one with arguments is its template
/// filled in.
pub open spec fn rendered_message(b: &CatalogBundle, m: MessageView) -> TemplateOutcome {
    match m {
        MessageView::Localized(key, args) => message_outcome(bundle_text(b, LocaleId::EnUs, key@), args),
        MessageView::Text(s) => TemplateOutcome::Rendered(s),
    }
}

/// The task state and status update that report a driver error, with messages
/// looked up in `en-US`; an error when a catalog template does not match its arguments.
pub fn classify_driver_error(
    bundle: &CatalogBundle,
    error: &AgentDriverError,
    binary_name: Option<String>,
) -> (r: Result<(AgentTaskState, TaskStatusUpdate), TemplateError>)
    ensures
        ({
            let c = classification_spec(*error, binary_name_or_default(binary_name));
            match r {
                Ok((state, update)) => state == c.0 && update.error_code == c.2
                    && rendered_message(bundle, c.1) == TemplateOutcome::Rendered(update.message@),
                Err(e) => rendered_message(bundle, c.1) == outcome_of(Err(e)),
            }
        }),
{
    let c = classify(error, binary_name);
    let message = match &c.message {
        StatusMessage::Localized { key, args } => if args.len() == 0 {
            text_for_locale(bundle, LocaleId::EnUs, key)
        } else {
            let borrowed = borrowed_args(args);
            match text_for_locale_with_args(bundle, LocaleId::EnUs, key, &borrowed) {
                Ok(text) => text,
                Err(e) => return Err(e),
            }
        },
        StatusMessage::Text(text) => text.clone(),
    };
    Ok((c.state, TaskStatusUpdate { message, error_code: c.error_code }))
}

} // verus!
