use warp::banners::{
    shell_process_terminated_banner, InlineBannerStyle, SshTmuxDeprecationBanner, SshTmuxDeprecationBannerAction,
    SshTmuxDeprecationBannerEvent,
};
use warp::catalog::{Catalog, CatalogBundle};
use warp::driver_errors::{
    classify, classify_driver_error, AgentDriverError, AgentTaskState, PlatformErrorCode, ShareSessionError,
    StatusMessage, TaskStatusUpdate,
};
use warp::locale::LocaleId;
use warp::mcp_dialog::{
    DestructiveMCPConfirmationDialog, DestructiveMCPConfirmationDialogAction, DestructiveMCPConfirmationDialogDisplayOptions,
    DestructiveMCPConfirmationDialogEvent, DestructiveMCPConfirmationDialogVariant,
};
use warp::repo_spec::{parse_repo_spec, RepoSpecError};
use warp::secure_storage::{unavailable, SecureStorage, StorageError};
use warp::tabs::{Tab, TabGroup, WorkspaceTabs};
use warp::tips::{get_cloud_mode_tips, tip_text, CloudModeTip};
use warp::toast::{CloudObjectToastMessage, InitiatedBy, ObjectOperation, ObjectType, OperationSuccessType};

fn bundle() -> CatalogBundle {
    let en = Catalog::from_json(
        LocaleId::EnUs,
        r#"{
            "agent_sdk.driver.error_classification.not_logged_in": "Run `{bin} login` first",
            "agent_sdk.driver.error_classification.harness_command_failed": "Harness exited with {exit_code}",
            "agent_sdk.driver.error_classification.share_failed": "Sharing failed: {reason}",
            "agent.tips.prefix": "Tip: ",
            "terminal.ambient_agent.tip.01": "Use Slack",
            "cloud_object.toast.saved_to": "Saved {object} to {location}",
            "cloud_object.toast.failed_create": "Failed to create {object}",
            "cloud_object.toast.updated": "Updated {object}",
            "cloud_object.toast.rejection.workflow": "Workflow changed elsewhere",
            "cloud_object.toast.deleted_forever": "Deleted {count_objects} forever",
            "cloud_object.toast.trash_emptied": "Emptied {count_objects}",
            "cloud_object.toast.object_count.singular": "1 object",
            "cloud_object.toast.object_count.plural": "{count} objects",
            "cloud_object.toast.failed_empty_trash": "Could not empty trash"
        }"#,
    )
    .unwrap();
    let zh = Catalog::from_json(LocaleId::ZhCn, r#"{ "agent.tips.prefix": "提示：" }"#).unwrap();
    CatalogBundle::new(LocaleId::EnUs, vec![en, zh]).unwrap()
}

#[test]
fn driver_errors_map_to_state_message_and_code() {
    let c = classify(&AgentDriverError::NotLoggedIn, None);
    assert_eq!(c.state, AgentTaskState::Error);
    assert_eq!(c.error_code, Some(PlatformErrorCode::AuthenticationRequired));
    assert_eq!(
        c.message,
        StatusMessage::Localized {
            key: "agent_sdk.driver.error_classification.not_logged_in",
            args: vec![("bin", "warp".to_string())]
        }
    );
    let c = classify(&AgentDriverError::ConversationCancelled, Some("oz".to_string()));
    assert_eq!(c.state, AgentTaskState::Cancelled);
    assert_eq!(c.error_code, None);
    let c = classify(
        &AgentDriverError::ShareSessionFailed { error: ShareSessionError::Disabled },
        None,
    );
    assert_eq!(c.error_code, Some(PlatformErrorCode::FeatureNotAvailable));
    let c = classify(&AgentDriverError::MCPServerNotFound("id-1".to_string()), None);
    assert_eq!(c.state, AgentTaskState::Failed);
    assert_eq!(c.error_code, Some(PlatformErrorCode::EnvironmentSetupFailed));
}

#[test]
fn conversation_errors_keep_their_own_update() {
    let update = TaskStatusUpdate { message: "rate limited".to_string(), error_code: Some(PlatformErrorCode::ResourceNotFound) };
    let e = AgentDriverError::ConversationError {
        state: AgentTaskState::Blocked,
        update: Some(update.clone()),
        message: "ignored".to_string(),
    };
    assert_eq!(classify_driver_error(&bundle(), &e, None), Ok((AgentTaskState::Blocked, update)));
    let e = AgentDriverError::ConversationError { state: AgentTaskState::Error, update: None, message: "boom".to_string() };
    assert_eq!(
        classify_driver_error(&bundle(), &e, None),
        Ok((
            AgentTaskState::Error,
            TaskStatusUpdate { message: "boom".to_string(), error_code: Some(PlatformErrorCode::InternalError) }
        ))
    );
}

#[test]
fn driver_error_messages_are_rendered_in_english() {
    let b = bundle();
    let (_, update) = classify_driver_error(&b, &AgentDriverError::NotLoggedIn, Some("oz".to_string())).unwrap();
    assert_eq!(update.message, "Run `oz login` first");
    let (_, update) = classify_driver_error(&b, &AgentDriverError::HarnessCommandFailed { exit_code: -2 }, None).unwrap();
    assert_eq!(update.message, "Harness exited with -2");
    let (_, update) = classify_driver_error(
        &b,
        &AgentDriverError::ShareSessionFailed { error: ShareSessionError::Failed("no network".to_string()) },
        None,
    )
    .unwrap();
    assert_eq!(update.message, "Sharing failed: no network");
    // A message without a catalog entry is its key.
    let (_, update) = classify_driver_error(&b, &AgentDriverError::BootstrapFailed, None).unwrap();
    assert_eq!(update.message, "agent_sdk.driver.error_classification.bootstrap_failed");
}

#[test]
fn tips_have_keys_links_and_localized_text() {
    let tips = get_cloud_mode_tips();
    assert_eq!(tips.len(), 40);
    assert_eq!(tips[0].description(), "terminal.ambient_agent.tip.01");
    assert_eq!(
        tips[0].link().as_deref(),
        Some("https://docs.warp.dev/agent-platform/cloud-agents/integrations/slack")
    );
    assert_eq!(tips[39].description(), "terminal.ambient_agent.tip.40");
    assert_eq!(tip_text(&bundle(), LocaleId::EnUs, &tips[0]), "Tip: Use Slack");
    assert_eq!(tip_text(&bundle(), LocaleId::ZhCn, &tips[0]), "提示：Use Slack");
    let tip = CloudModeTip::new("some.key", None);
    assert_eq!(tip.link(), None);
}

#[test]
fn mcp_dialog_confirms_the_variant_it_shows() {
    let mut dialog = DestructiveMCPConfirmationDialog::new();
    assert!(!dialog.visible);
    dialog.show(DestructiveMCPConfirmationDialogVariant::Unshare);
    assert!(dialog.visible);
    assert_eq!(dialog.button_label_keys(), ("settings.action.cancel", "settings.mcp.edit.remove_from_team"));
    assert_eq!(
        dialog.handle_action(&DestructiveMCPConfirmationDialogAction::Confirm),
        DestructiveMCPConfirmationDialogEvent::Confirm(DestructiveMCPConfirmationDialogVariant::Unshare)
    );
    assert_eq!(
        dialog.handle_action(&DestructiveMCPConfirmationDialogAction::Cancel),
        DestructiveMCPConfirmationDialogEvent::Cancel
    );
    dialog.close();
    assert!(!dialog.visible);
    let options = DestructiveMCPConfirmationDialogDisplayOptions::for_variant(&DestructiveMCPConfirmationDialogVariant::DeleteShared);
    assert_eq!(options.title_key, "settings.mcp.confirmation.delete_shared.title");
    assert_eq!(options.confirm_button_key, "settings.mcp.edit.delete_mcp");
    let custom = DestructiveMCPConfirmationDialogDisplayOptions::new("t", "d", "c");
    assert_eq!(custom.description_key, "d");
}

fn tab(id: u64, group: Option<u64>) -> Tab {
    Tab { pane_group_id: id, group_id: group, in_multi_selection: false }
}

fn workspace() -> WorkspaceTabs {
    WorkspaceTabs {
        tabs: vec![tab(10, None), tab(11, Some(1)), tab(12, Some(1)), tab(13, Some(2)), tab(14, None)],
        tab_groups: vec![TabGroup { id: 1, collapsed: true }, TabGroup { id: 2, collapsed: true }],
        active_tab_index: 0,
    }
}

fn selected(w: &WorkspaceTabs) -> Vec<bool> {
    w.tabs.iter().map(|t| t.in_multi_selection).collect()
}

#[test]
fn shift_selection_expands_crossed_groups() {
    let mut w = workspace();
    w.shift_select_tab_range(12, true);
    assert_eq!(selected(&w), [true, true, true, false, false]);
    assert_eq!(w.tab_groups, vec![TabGroup { id: 1, collapsed: false }, TabGroup { id: 2, collapsed: true }]);

    let mut w = workspace();
    w.shift_select_tab_range(12, false);
    assert_eq!(selected(&w), [false; 5]);

    let mut w = workspace();
    w.set_tab_range_selection(4, 3);
    assert_eq!(selected(&w), [false, false, false, true, true]);
    assert_eq!(w.tab_groups[1], TabGroup { id: 2, collapsed: false });
    w.clear_tab_multi_selection();
    assert_eq!(selected(&w), [false; 5]);
}

#[test]
fn toggling_twice_restores_the_selection() {
    let mut w = workspace();
    w.toggle_tab_multi_selection(13, true);
    assert_eq!(selected(&w), [false, false, false, true, false]);
    w.toggle_tab_multi_selection(13, true);
    assert_eq!(selected(&w), [false; 5]);
    w.toggle_tab_multi_selection(99, true);
    assert_eq!(selected(&w), [false; 5]);
    w.toggle_tab_multi_selection(13, false);
    assert_eq!(selected(&w), [false; 5]);
}

#[test]
fn toasts_name_the_object_and_its_place() {
    let b = bundle();
    let user_create = ObjectOperation::Create { initiated_by: InitiatedBy::User };
    assert_eq!(
        CloudObjectToastMessage::toast_message(&b, LocaleId::EnUs, ObjectType::Workflow, "Deploy", "Team", &user_create, &OperationSuccessType::Success),
        Some("Saved Deploy to Team".to_string())
    );
    assert_eq!(
        CloudObjectToastMessage::toast_message(&b, LocaleId::EnUs, ObjectType::Workflow, "My Notebook", "", &user_create, &OperationSuccessType::Failure),
        Some("Failed to create my notebook".to_string())
    );
    assert_eq!(
        CloudObjectToastMessage::toast_message(
            &b,
            LocaleId::EnUs,
            ObjectType::Workflow,
            "x",
            "",
            &user_create,
            &OperationSuccessType::Denied("Not allowed".to_string())
        ),
        Some("Not allowed".to_string())
    );
    assert_eq!(
        CloudObjectToastMessage::toast_message(&b, LocaleId::EnUs, ObjectType::Notebook, "N", "", &ObjectOperation::Update, &OperationSuccessType::Success),
        None
    );
    assert_eq!(
        CloudObjectToastMessage::toast_message(&b, LocaleId::EnUs, ObjectType::Workflow, "W", "", &ObjectOperation::Update, &OperationSuccessType::Success),
        Some("Updated W".to_string())
    );
    assert_eq!(
        CloudObjectToastMessage::toast_message(&b, LocaleId::EnUs, ObjectType::Workflow, "W", "", &ObjectOperation::Update, &OperationSuccessType::Rejection),
        Some("Workflow changed elsewhere".to_string())
    );
    assert_eq!(
        CloudObjectToastMessage::toast_message(&b, LocaleId::EnUs, ObjectType::Other, "W", "", &ObjectOperation::Update, &OperationSuccessType::Rejection),
        None
    );
    let system_create = ObjectOperation::Create { initiated_by: InitiatedBy::System };
    assert_eq!(
        CloudObjectToastMessage::toast_message(&b, LocaleId::EnUs, ObjectType::Workflow, "W", "", &system_create, &OperationSuccessType::Success),
        None
    );
}

#[test]
fn deletion_toasts_count_objects() {
    let b = bundle();
    let delete = ObjectOperation::Delete { initiated_by: InitiatedBy::User };
    assert_eq!(
        CloudObjectToastMessage::toast_deletion_confirm_message(&b, LocaleId::EnUs, 1, &delete, &OperationSuccessType::Success),
        Some("Deleted 1 object forever".to_string())
    );
    assert_eq!(
        CloudObjectToastMessage::toast_deletion_confirm_message(&b, LocaleId::EnUs, 3, &ObjectOperation::EmptyTrash, &OperationSuccessType::Success),
        Some("Emptied 3 objects".to_string())
    );
    assert_eq!(
        CloudObjectToastMessage::toast_deletion_confirm_message(&b, LocaleId::EnUs, 3, &ObjectOperation::EmptyTrash, &OperationSuccessType::Failure),
        Some("Could not empty trash".to_string())
    );
    assert_eq!(
        CloudObjectToastMessage::toast_deletion_confirm_message(&b, LocaleId::EnUs, 3, &ObjectOperation::Trash, &OperationSuccessType::Success),
        None
    );
}

#[test]
fn repo_specs_accept_slugs_and_github_urls() {
    for spec in ["warpdotdev/warp", "  warpdotdev/warp ", "https://github.com/warpdotdev/warp", "http://github.com/warpdotdev/warp.git", "https://github.com/warpdotdev/warp/", "https://github.com/warpdotdev/warp/tree/main"] {
        let repo = parse_repo_spec(spec).unwrap();
        assert_eq!((repo.owner.as_str(), repo.repo.as_str()), ("warpdotdev", "warp"), "{spec}");
    }
    for spec in ["warp", "a/b/c", "/warp", "owner/", "https://github.com/owner", " "] {
        assert!(parse_repo_spec(spec).is_err(), "{spec}");
    }
    let err = parse_repo_spec(" bad ").unwrap_err();
    assert_eq!(err, RepoSpecError::InvalidFormat { spec: "bad".to_string() });
    assert_eq!(
        err.message(),
        "Invalid repo format: 'bad'. Expected 'owner/repo' or 'https://github.com/owner/repo'"
    );
}

#[test]
fn unavailable_storage_keeps_nothing() {
    let storage = unavailable::SecureStorage;
    assert_eq!(storage.write_value("k", "v"), Ok(()));
    assert_eq!(storage.read_value("k"), Err(StorageError::NotFound));
    assert_eq!(storage.remove_value("k"), Ok(()));
}

#[test]
fn banners_of_a_terminal() {
    let banner = SshTmuxDeprecationBanner::new(42);
    assert_eq!(banner.session_id(), 42);
    let r = banner.handle_action(&SshTmuxDeprecationBannerAction::LearnMore);
    assert!(r.open_docs);
    assert_eq!(r.event, SshTmuxDeprecationBannerEvent::Dismissed);
    let r = banner.handle_action(&SshTmuxDeprecationBannerAction::Dismiss);
    assert!(!r.open_docs);
    assert_eq!(r.event, SshTmuxDeprecationBannerEvent::Dismissed);

    let b = bundle();
    let premature = shell_process_terminated_banner(&b, LocaleId::EnUs, true);
    assert_eq!(premature.style, InlineBannerStyle::CallToAction);
    assert_eq!(premature.title, "terminal.inline_banner.shell_process.exited_prematurely");
    assert_eq!(premature.icon_asset, "bundled/svg/warning.svg");
    assert!(premature.detail.is_some());
    let normal = shell_process_terminated_banner(&b, LocaleId::EnUs, false);
    assert_eq!(normal.style, InlineBannerStyle::LowPriority);
    assert_eq!(normal.icon_asset, "bundled/svg/info.svg");
    assert_eq!(normal.detail, None);
}

#[test]
fn messages_without_arguments_are_the_catalog_text_as_it_stands() {
    let en = Catalog::from_json(
        LocaleId::EnUs,
        r#"{
            "agent_sdk.driver.error_classification.share_disabled": "Sharing is off {{admin}}",
            "agent_sdk.driver.error_classification.share_timeout": "Timed out after {seconds}",
            "agent_sdk.driver.error_classification.conversation_cancelled": "Cancelled {by}"
        }"#,
    )
    .unwrap();
    let b = CatalogBundle::new(LocaleId::EnUs, vec![en]).unwrap();
    let disabled = AgentDriverError::ShareSessionFailed { error: ShareSessionError::Disabled };
    assert_eq!(
        classify_driver_error(&b, &disabled, None),
        Ok((
            AgentTaskState::Error,
            TaskStatusUpdate {
                message: "Sharing is off {{admin}}".to_string(),
                error_code: Some(PlatformErrorCode::FeatureNotAvailable)
            }
        ))
    );
    let timeout = AgentDriverError::ShareSessionFailed { error: ShareSessionError::Timeout };
    assert_eq!(
        classify_driver_error(&b, &timeout, None),
        Ok((
            AgentTaskState::Error,
            TaskStatusUpdate {
                message: "Timed out after {seconds}".to_string(),
                error_code: Some(PlatformErrorCode::InternalError)
            }
        ))
    );
    assert_eq!(
        classify_driver_error(&b, &AgentDriverError::ConversationCancelled, None),
        Ok((AgentTaskState::Cancelled, TaskStatusUpdate { message: "Cancelled {by}".to_string(), error_code: None }))
    );
}
