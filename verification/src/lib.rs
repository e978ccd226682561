//! The logic of the Warp app and its agent command line, verified: localized texts and
//! their catalogs, IAP credentials, agent runs and their errors, skills, API keys, and
//! the views that report on them.

use vstd::prelude::*;

pub mod agent_config;
pub mod api_keys;
pub mod assoc;
pub mod banners;
pub mod catalog;
pub mod cli_agent_listener;
pub mod driver_errors;
pub mod git_status;
pub mod iap;
pub mod laws;
pub mod locale;
pub mod localization;
pub mod mcp_dialog;
pub mod repo_spec;
pub mod search_localization;
pub mod secure_storage;
pub mod skill_index;
pub mod skills;
pub mod sort;
pub mod tabs;
pub mod template;
pub mod text;
pub mod tips;
pub mod toast;

verus! {

} // verus!
