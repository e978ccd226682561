//! Properties of the library as a whole, each relating its functions' contracts.

use vstd::prelude::*;

use crate::api_keys::{api_key_sort_key, unicode_lowercase, ApiKeyInfo, ApiKeySortBy};
use crate::driver_errors::{
    classification_spec, AgentDriverError, AgentTaskState, MessageView, PlatformErrorCode, ShareSessionError, TaskStatusUpdate,
};
use crate::iap::{cached_token_at, previous_of, CachedToken, IapCredentialsState};
use crate::sort::{sorted_by, sorted_by_as, text_lt};
use crate::toast::{toast_spec, InitiatedBy, ObjectOperation, ObjectType, OperationSuccessType, ToastSpec};
use crate::agent_config::{auth_step_spec, AuthAction, AuthEvent, AuthFlowState, MAX_AUTH_ATTEMPTS};
use crate::iap::{failure_retry_delay, BASE_FAILURE_RETRY_DELAY_MS, MAX_FAILURE_RETRY_DELAY_MS};
use crate::locale::{locale_code, locale_from_system, normalize_char, normalized_locale, until_separator, LocaleId};
use crate::repo_spec::repo_of_spec;
use crate::localization::views;
use crate::skill_index::{
    location_starts_with, removed_files, removed_from, skill_parent_directory, view_after_add, view_after_adds,
    view_after_delete, IndexView, IndexedSkill, LayoutView, LocationView,
};
use crate::skills::{
    carried_by, carries, carries_one_of, ids_distinct, is_shipped, lemma_filter_to_multiset, lemma_snapshot_shape, proto_ids,
    same_proto, shipped_definitions, snapshot_of, wire_id_of, wire_requirement, BundledSkillActivation, BundledSkillDefinition,
    BundledSkillProto, McpIntegration,
};
use crate::sort::lemma_ascending_same_texts_equal;
use crate::template::{scan, template_outcome, TemplateOutcome};
use crate::tabs::{tab_position, with_selection, Tab};
use crate::text::{
    decimal, first_index_of, is_white_space, lemma_first_index_of, lemma_trim_end_at, lemma_trim_start_at, split_on, trim,
};

verus! {

proof fn lemma_trim_unchanged(s: Seq<char>)
    requires
        s.len() > 0,
        !is_white_space(s[0]),
        !is_white_space(s.last()),
    ensures
        trim(s) == s,
{
    lemma_trim_start_at(s, 0);
    assert(s.skip(0) =~= s);
    lemma_trim_end_at(s, s.len() as int);
    assert(s.take(s.len() as int) =~= s);
}

/// The code of a bundled locale, read as a system locale name, names that locale again.
pub proof fn law_locale_code_round_trip(l: LocaleId)
    ensures
        locale_from_system(locale_code(l)) == Some(l),
{
    let s = locale_code(l);
    lemma_trim_unchanged(s);
    reveal_with_fuel(until_separator, 6);
    assert(until_separator(s) =~= s);
    let n = s.map_values(|c: char| normalize_char(c));
    assert(normalized_locale(s) == Some(n));
    match l {
        LocaleId::EnUs => {
            assert(n =~= seq!['e', 'n', '-', 'u', 's']);
            assert(n.take(3) =~= seq!['e', 'n', '-']);
        },
        LocaleId::ZhCn => {
            assert(n =~= seq!['z', 'h', '-', 'c', 'n']);
        },
    }
}

proof fn lemma_no_sep_split(s: Seq<char>, c: char)
    requires
        forall|k: int| 0 <= k < s.len() ==> s[k] != c,
    ensures
        split_on(s, c) == seq![s],
{
    lemma_first_index_of(s, c);
    if first_index_of(s, c) is Some {
        let j = first_index_of(s, c)->0;
        assert(s[j] == c);
    }
}

/// `owner/repo` names that repository, for an owner and a name that are not empty,
/// hold no `/`, and have no white space at the outer ends.
pub proof fn law_slug_names_its_repo(owner: Seq<char>, repo: Seq<char>)
    requires
        owner.len() > 0,
        repo.len() > 0,
        forall|k: int| 0 <= k < owner.len() ==> owner[k] != '/',
        forall|k: int| 0 <= k < repo.len() ==> repo[k] != '/',
        !is_white_space(owner[0]),
        !is_white_space(repo.last()),
    ensures
        repo_of_spec(owner + seq!['/'] + repo) == Some((owner, repo)),
{
    let s = owner + seq!['/'] + repo;
    let n = owner.len() as int;
    assert(s[0] == owner[0]);
    assert(s.last() == repo.last());
    lemma_trim_unchanged(s);
    assert forall|k: int| 0 <= k < s.len() && s[k] == '/' implies k == n by {
        if k < n {
            assert(s[k] == owner[k]);
        } else if k > n {
            assert(s[k] == repo[k - n - 1]);
        }
    }
    // Neither URL prefix fits: each has `/` at two neighbouring places.
    assert(!crate::locale::has_prefix(s, "https://github.com/"@)) by {
        reveal_strlit("https://github.com/");
        if crate::locale::has_prefix(s, "https://github.com/"@) {
            assert(s[6] == s.take(19)[6]);
            assert(s[7] == s.take(19)[7]);
        }
    }
    assert(!crate::locale::has_prefix(s, "http://github.com/"@)) by {
        reveal_strlit("http://github.com/");
        if crate::locale::has_prefix(s, "http://github.com/"@) {
            assert(s[5] == s.take(18)[5]);
            assert(s[6] == s.take(18)[6]);
        }
    }
    lemma_first_index_of(s, '/');
    assert(s[n] == '/');
    assert(first_index_of(s, '/') == Some(n)) by {
        match first_index_of(s, '/') {
            Some(j) => {
                assert(s[j] == '/');
            },
            None => {},
        }
    }
    assert(s.take(n) =~= owner);
    assert(s.skip(n + 1) =~= repo);
    lemma_no_sep_split(repo, '/');
    assert(split_on(s, '/') =~= seq![owner, repo]);
}

proof fn lemma_plain_scan(t: Seq<char>, args: Seq<(Seq<char>, Seq<char>)>)
    requires
        forall|k: int| 0 <= k < t.len() ==> t[k] != '{',
    ensures
        scan(t, args) == Ok::<(Seq<char>, Set<int>), Seq<char>>((t, Set::empty())),
    decreases t.len(),
{
    if t.len() > 0 {
        assert forall|k: int| 0 <= k < t.drop_first().len() implies t.drop_first()[k] != '{' by {
            assert(t.drop_first()[k] == t[k + 1]);
        }
        lemma_plain_scan(t.drop_first(), args);
        assert(seq![t[0]] + t.drop_first() =~= t);
        assert(Set::<int>::empty().union(Set::empty()) =~= Set::empty());
    } else {
        assert(t =~= Seq::<char>::empty());
    }
}

/// A template without `{`, filled in with no arguments, comes back unchanged.
pub proof fn law_plain_template_unchanged(t: Seq<char>)
    requires
        forall|k: int| 0 <= k < t.len() ==> t[k] != '{',
    ensures
        template_outcome(t, seq![]) == TemplateOutcome::Rendered(t),
{
    lemma_plain_scan(t, seq![]);
}

/// The retry delay after failures never exceeds the maximum delay, starts at the base
/// delay, and never shrinks as failures add up.
pub proof fn law_retry_delay_bounded_and_growing(f: nat, g: nat)
    requires
        f <= g,
    ensures
        failure_retry_delay(f) <= MAX_FAILURE_RETRY_DELAY_MS,
        failure_retry_delay(0) == BASE_FAILURE_RETRY_DELAY_MS,
        failure_retry_delay(f) <= failure_retry_delay(g),
{
    vstd::arithmetic::power2::lemma2_to64();
    if f < g {
        vstd::arithmetic::power2::lemma_pow2_strictly_increases(f, g);
    }
    let a = vstd::arithmetic::power2::pow2(f);
    let b = vstd::arithmetic::power2::pow2(g);
    assert(BASE_FAILURE_RETRY_DELAY_MS * a <= BASE_FAILURE_RETRY_DELAY_MS * b) by (nonlinear_arith)
        requires
            a <= b,
    ;
}

/// Every status check of a GitHub authorization runs at an attempt no later than the
/// last allowed one, and each step advances the attempt by at most one.
pub proof fn law_auth_attempts_bounded(state: AuthFlowState, event: AuthEvent)
    requires
        event matches AuthEvent::PollFinished(crate::agent_config::OauthPollOutcome::Completed) ==> state.attempt
            < u32::MAX,
    ensures
        auth_step_spec(state, event).2 == AuthAction::CheckStatus ==> auth_step_spec(state, event).0.attempt
            <= MAX_AUTH_ATTEMPTS,
        auth_step_spec(state, event).0.attempt == state.attempt || auth_step_spec(state, event).0.attempt
            == state.attempt + 1,
{
}

/// A client reads back the integration that a daemon ships a skill's requirement as.
pub proof fn law_mcp_requirement_round_trip(i: McpIntegration)
    ensures
        wire_requirement(BundledSkillActivation::RequiresMcp(i)) == Some(Some(wire_id_of(i)@)),
        forall|j: McpIntegration| wire_id_of(j)@ == wire_id_of(i)@ ==> j == i,
{
    assert forall|j: McpIntegration| wire_id_of(j)@ == wire_id_of(i)@ implies j == i by {
        match (i, j) {
            (McpIntegration::Figma, McpIntegration::Figma) => {},
        }
    }
}

proof fn lemma_first_tab(tabs: Seq<Tab>, pane_group_id: u64, w: int)
    requires
        0 <= w < tabs.len(),
        tabs[w].pane_group_id == pane_group_id,
    ensures
        exists|i: int|
            0 <= i < tabs.len() && tabs[i].pane_group_id == pane_group_id && forall|k: int|
                0 <= k < i ==> tabs[k].pane_group_id != pane_group_id,
    decreases w,
{
    if exists|k: int| 0 <= k < w && tabs[k].pane_group_id == pane_group_id {
        let k = choose|k: int| 0 <= k < w && tabs[k].pane_group_id == pane_group_id;
        lemma_first_tab(tabs, pane_group_id, k);
    } else {
        assert(forall|k: int| 0 <= k < w ==> tabs[k].pane_group_id != pane_group_id);
    }
}

/// Toggling the multi-selection of a tab twice leaves the tabs as they were: the first
/// toggle keeps the tab where the second finds it.
pub proof fn law_toggle_twice_restores(tabs: Seq<Tab>, pane_group_id: u64)
    requires
        tab_position(tabs, pane_group_id) is Some,
    ensures
        ({
            let p = tab_position(tabs, pane_group_id)->0;
            let once = tabs.update(p, with_selection(tabs[p], !tabs[p].in_multi_selection));
            &&& tab_position(once, pane_group_id) == Some(p)
            &&& once.update(p, with_selection(once[p], !once[p].in_multi_selection)) == tabs
        }),
{
    let w = choose|i: int| 0 <= i < tabs.len() && tabs[i].pane_group_id == pane_group_id;
    lemma_first_tab(tabs, pane_group_id, w);
    let p = tab_position(tabs, pane_group_id)->0;
    let once = tabs.update(p, with_selection(tabs[p], !tabs[p].in_multi_selection));
    assert(0 <= p < tabs.len() && tabs[p].pane_group_id == pane_group_id && forall|k: int|
        0 <= k < p ==> tabs[k].pane_group_id != pane_group_id);
    assert(once[p].pane_group_id == pane_group_id);
    assert forall|k: int| 0 <= k < p implies once[k].pane_group_id != pane_group_id by {
        assert(once[k] == tabs[k]);
    }
    lemma_first_tab(once, pane_group_id, p);
    let q = tab_position(once, pane_group_id)->0;
    assert(tab_position(once, pane_group_id) is Some);
    assert(0 <= q < once.len() && once[q].pane_group_id == pane_group_id && forall|k: int|
        0 <= k < q ==> once[k].pane_group_id != pane_group_id);
    if q < p {
        assert(once[q] == tabs[q]);
    } else if q > p {
        assert(once[p].pane_group_id != pane_group_id);
    }
    assert(once.update(p, with_selection(once[p], !once[p].in_multi_selection)) =~= tabs);
}

/// Replacing the cached system locale candidates with what the cache already holds
/// reports no change, so a second replacement with the same candidates never does.
pub proof fn law_replacing_with_held_candidates_is_no_change(cache: Seq<String>, candidates: Seq<String>)
    requires
        views(cache) == views(candidates),
    ensures
        !(views(cache) != views(candidates)),
{
}

/// A skill added at a skill file's path is what the index then holds at that path,
/// and its name lists the path, whatever the index held before.
pub proof fn law_added_skill_is_found<T>(
    v: IndexView<T>,
    earlier: Seq<(LocationView, IndexedSkill<T>)>,
    path: LocationView,
    skill: IndexedSkill<T>,
    layout: LayoutView,
)
    requires
        skill_parent_directory(path, layout) is Ok,
    ensures
        view_after_adds(v, earlier.push((path, skill)), layout).skills.contains_key(path),
        view_after_adds(v, earlier.push((path, skill)), layout).skills[path] == skill,
        view_after_adds(v, earlier.push((path, skill)), layout).names[skill.name@].contains(path),
{
    assert(earlier.push((path, skill)).drop_last() =~= earlier);
}

/// A skill file outside every skills folder is never added: the index holds nothing
/// at its path after the additions that it did not hold before.
pub proof fn law_skills_outside_skill_folders_are_ignored<T>(
    v: IndexView<T>,
    skills: Seq<(LocationView, IndexedSkill<T>)>,
    path: LocationView,
    layout: LayoutView,
)
    requires
        skill_parent_directory(path, layout) is Err,
        !v.skills.contains_key(path),
    ensures
        !view_after_adds(v, skills, layout).skills.contains_key(path),
    decreases skills.len(),
{
    if skills.len() > 0 {
        law_skills_outside_skill_folders_are_ignored(v, skills.drop_last(), path, layout);
    }
}

/// Deleting the file of a skill that was just added under a directory containing it
/// forgets the skill, and the directory no longer lists the file.
pub proof fn law_deleting_an_added_skill_forgets_it<T>(
    v: IndexView<T>,
    parent: LocationView,
    path: LocationView,
    skill: IndexedSkill<T>,
)
    requires
        location_starts_with(path, parent),
    ensures
        !view_after_delete(view_after_add(v, parent, path, skill), path).skills.contains_key(path),
        view_after_delete(view_after_add(v, parent, path, skill), path).dirs.contains_key(parent)
            ==> !view_after_delete(view_after_add(v, parent, path, skill), path).dirs[parent].contains(path),
{
    let a = view_after_add(v, parent, path, skill);
    assert(a.dirs.contains_key(parent) && a.dirs[parent].contains(path));
    assert(location_starts_with(path, path)) by {
        assert(path.components.take(path.components.len() as int) =~= path.components);
    }
    assert(removed_from(parent, a.dirs[parent], path).contains(path));
    assert(removed_files(a.dirs, path).contains(path));
}

/// Of two bundled-skill snapshots from one host, the later one is the host's catalog,
/// whatever came before; a disconnected host has none.
pub proof fn law_latest_snapshot_wins<C>(catalogs: Map<Seq<char>, C>, host: Seq<char>, first: C, second: C)
    ensures
        catalogs.insert(host, first).insert(host, second) == catalogs.insert(host, second),
        !catalogs.insert(host, second).remove(host).contains_key(host),
{
    assert(catalogs.insert(host, first).insert(host, second) =~= catalogs.insert(host, second));
}

/// A daemon's snapshot does not depend on the order of its catalog: two catalogs that
/// hold the same definitions, those a client may receive having distinct skill ids,
/// give snapshots that carry the same skills in the same order.
pub proof fn law_snapshot_ignores_catalog_order(
    first: Seq<BundledSkillDefinition>,
    second: Seq<BundledSkillDefinition>,
    first_snapshot: Seq<BundledSkillProto>,
    second_snapshot: Seq<BundledSkillProto>,
)
    requires
        first.to_multiset() == second.to_multiset(),
        ids_distinct(shipped_definitions(first)),
        snapshot_of(first, first_snapshot),
        snapshot_of(second, second_snapshot),
    ensures
        first_snapshot.len() == second_snapshot.len(),
        forall|k: int| 0 <= k < first_snapshot.len() ==> same_proto(#[trigger] first_snapshot[k], second_snapshot[k]),
{
    broadcast use vstd::seq_lib::group_to_multiset_ensures;

    let pred = |d: BundledSkillDefinition| is_shipped(d);
    let d1 = shipped_definitions(first);
    let d2 = shipped_definitions(second);
    lemma_filter_to_multiset(first, pred);
    lemma_filter_to_multiset(second, pred);
    assert(d1.to_multiset() == d2.to_multiset());
    // Each catalog's shipped definitions are found in the other's.
    assert forall|i: int| 0 <= i < d2.len() implies d1.contains(#[trigger] d2[i]) by {
        assert(d2.to_multiset().count(d2[i]) > 0);
    }
    assert forall|i: int| 0 <= i < d1.len() implies d2.contains(#[trigger] d1[i]) by {
        assert(d1.to_multiset().count(d1[i]) > 0);
    }
    // The second catalog's shipped ids are distinct too.
    assert(d1.no_duplicates()) by {
        assert forall|a: int, b: int| 0 <= a < d1.len() && 0 <= b < d1.len() && a != b implies d1[a] != d1[b] by {
            if a < b {
                assert(d1[a].id@ != d1[b].id@);
            } else {
                assert(d1[b].id@ != d1[a].id@);
            }
        }
    }
    d1.lemma_multiset_has_no_duplicates();
    d2.lemma_multiset_has_no_duplicates_conv();
    assert forall|k: int, l: int| 0 <= k < l < d2.len() implies (#[trigger] d2[k]).id@ != (#[trigger] d2[l]).id@ by {
        let a = choose|a: int| 0 <= a < d1.len() && d1[a] == d2[k];
        let b = choose|b: int| 0 <= b < d1.len() && d1[b] == d2[l];
        assert(d2[k] != d2[l]);
        if a < b {
            assert(d1[a].id@ != d1[b].id@);
        } else if b < a {
            assert(d1[b].id@ != d1[a].id@);
        }
    }
    assert(ids_distinct(d2));
    lemma_snapshot_shape(first, first_snapshot);
    lemma_snapshot_shape(second, second_snapshot);
    let x = proto_ids(first_snapshot);
    let y = proto_ids(second_snapshot);
    // The two snapshots carry the same ids.
    assert forall|k: int| 0 <= k < x.len() implies y.contains(#[trigger] x[k]) by {
        assert(carries_one_of(first_snapshot[k], d1));
        let i = choose|i: int| 0 <= i < d1.len() && carries(first_snapshot[k], d1[i]);
        assert(d2.contains(d1[i]));
        let j = choose|j: int| 0 <= j < d2.len() && d2[j] == d1[i];
        assert(carried_by(second_snapshot, d2[j]));
        let m = choose|m: int| 0 <= m < second_snapshot.len() && carries(second_snapshot[m], d2[j]);
        assert(y[m] == x[k]);
    }
    assert forall|k: int| 0 <= k < y.len() implies x.contains(#[trigger] y[k]) by {
        assert(carries_one_of(second_snapshot[k], d2));
        let i = choose|i: int| 0 <= i < d2.len() && carries(second_snapshot[k], d2[i]);
        assert(d1.contains(d2[i]));
        let j = choose|j: int| 0 <= j < d1.len() && d1[j] == d2[i];
        assert(carried_by(first_snapshot, d1[j]));
        let m = choose|m: int| 0 <= m < first_snapshot.len() && carries(first_snapshot[m], d1[j]);
        assert(x[m] == y[k]);
    }
    lemma_ascending_same_texts_equal(x, y);
    assert(x.len() == y.len());
    // Equal ids name one definition, so the protos carry the same skill.
    assert forall|k: int| 0 <= k < first_snapshot.len() implies same_proto(
        #[trigger] first_snapshot[k],
        second_snapshot[k],
    ) by {
        assert(x[k] == y[k]);
        assert(carries_one_of(first_snapshot[k], d1));
        let a = choose|a: int| 0 <= a < d1.len() && carries(first_snapshot[k], d1[a]);
        assert(carries_one_of(second_snapshot[k], d2));
        let b = choose|b: int| 0 <= b < d2.len() && carries(second_snapshot[k], d2[b]);
        assert(d1.contains(d2[b]));
        let c = choose|c: int| 0 <= c < d1.len() && d1[c] == d2[b];
        if a < c {
            assert(d1[a].id@ != d1[c].id@);
        } else if c < a {
            assert(d1[c].id@ != d1[a].id@);
        }
    }
}

/// A driver error is reported in `state`, with the catalog message `key` filled in
/// with `args`, and the platform error code `code`.
pub open spec fn reported_as(
    e: AgentDriverError,
    bin: Seq<char>,
    state: AgentTaskState,
    key: &'static str,
    args: Seq<(Seq<char>, Seq<char>)>,
    code: Option<PlatformErrorCode>,
) -> bool {
    let c = classification_spec(e, bin);
    &&& c.0 == state
    &&& c.2 == code
    &&& c.1 == MessageView::Localized(key, args)
}

/// Errors naming something the user asked for that does not exist (a profile, a saved
/// prompt, an environment, a skill, the state to resume a conversation from) fail the
/// task with `ResourceNotFound`, each with its own message.
pub proof fn law_missing_resources_fail_as_not_found(bin: Seq<char>, s: String, t: String)
    ensures
        reported_as(
            AgentDriverError::ProfileError(s),
            bin,
            AgentTaskState::Failed,
            "agent_sdk.driver.error_classification.profile_not_found",
            seq![("name"@, s@)],
            Some(PlatformErrorCode::ResourceNotFound),
        ),
        reported_as(
            AgentDriverError::AIWorkflowNotFound(s),
            bin,
            AgentTaskState::Failed,
            "agent_sdk.driver.error_classification.saved_prompt_not_found",
            seq![("id"@, s@)],
            Some(PlatformErrorCode::ResourceNotFound),
        ),
        reported_as(
            AgentDriverError::EnvironmentNotFound(s),
            bin,
            AgentTaskState::Failed,
            "agent_sdk.driver.error_classification.environment_not_found",
            seq![("id"@, s@)],
            Some(PlatformErrorCode::ResourceNotFound),
        ),
        reported_as(
            AgentDriverError::SkillResolutionFailed(s),
            bin,
            AgentTaskState::Failed,
            "agent_sdk.driver.error_classification.skill_resolution_failed",
            seq![("message"@, s@)],
            Some(PlatformErrorCode::ResourceNotFound),
        ),
        reported_as(
            AgentDriverError::ConversationResumeStateMissing { harness: s, conversation_id: t },
            bin,
            AgentTaskState::Failed,
            "agent_sdk.driver.error_classification.conversation_resume_state_missing",
            seq![("conversation_id"@, t@), ("harness"@, s@)],
            Some(PlatformErrorCode::ResourceNotFound),
        ),
{
}

/// Errors in setting up the run's environment (MCP servers, the environment, the
/// working directory, the configuration, cloud credentials, the harness) fail the task
/// with `EnvironmentSetupFailed`, each with its own message.
pub proof fn law_setup_problems_fail_as_environment_setup(bin: Seq<char>, s: String, t: String, u: String)
    ensures
        reported_as(
            AgentDriverError::MCPServerNotFound(s),
            bin,
            AgentTaskState::Failed,
            "agent_sdk.driver.error_classification.mcp_server_not_found",
            seq![("uuid"@, s@)],
            Some(PlatformErrorCode::EnvironmentSetupFailed),
        ),
        reported_as(
            AgentDriverError::MCPStartupFailed,
            bin,
            AgentTaskState::Failed,
            "agent_sdk.driver.error_classification.mcp_startup_failed",
            Seq::empty(),
            Some(PlatformErrorCode::EnvironmentSetupFailed),
        ),
        reported_as(
            AgentDriverError::MCPJsonParseError(s),
            bin,
            AgentTaskState::Failed,
            "agent_sdk.driver.error_classification.mcp_json_parse_error",
            seq![("message"@, s@)],
            Some(PlatformErrorCode::EnvironmentSetupFailed),
        ),
        reported_as(
            AgentDriverError::MCPMissingVariables,
            bin,
            AgentTaskState::Failed,
            "agent_sdk.driver.error_classification.mcp_missing_variables",
            Seq::empty(),
            Some(PlatformErrorCode::EnvironmentSetupFailed),
        ),
        reported_as(
            AgentDriverError::EnvironmentSetupFailed(s),
            bin,
            AgentTaskState::Failed,
            "agent_sdk.driver.error_classification.environment_setup_failed",
            seq![("message"@, s@)],
            Some(PlatformErrorCode::EnvironmentSetupFailed),
        ),
        reported_as(
            AgentDriverError::InvalidWorkingDirectory { path: s },
            bin,
            AgentTaskState::Failed,
            "agent_sdk.driver.error_classification.invalid_working_directory",
            seq![("path"@, s@)],
            Some(PlatformErrorCode::EnvironmentSetupFailed),
        ),
        reported_as(
            AgentDriverError::ConfigBuildFailed(s),
            bin,
            AgentTaskState::Failed,
            "agent_sdk.driver.error_classification.config_build_failed",
            seq![("error"@, s@)],
            Some(PlatformErrorCode::EnvironmentSetupFailed),
        ),
        reported_as(
            AgentDriverError::AwsBedrockCredentialsFailed(s),
            bin,
            AgentTaskState::Failed,
            "agent_sdk.driver.error_classification.aws_bedrock_credentials_failed",
            seq![("message"@, s@)],
            Some(PlatformErrorCode::EnvironmentSetupFailed),
        ),
        reported_as(
            AgentDriverError::ConversationHarnessMismatch { conversation_id: s, expected: t, got: u },
            bin,
            AgentTaskState::Failed,
            "agent_sdk.driver.error_classification.conversation_harness_mismatch",
            seq![("conversation_id"@, s@), ("expected"@, t@), ("got"@, u@)],
            Some(PlatformErrorCode::EnvironmentSetupFailed),
        ),
        reported_as(
            AgentDriverError::TaskHarnessMismatch { task_id: s, expected: t, got: u },
            bin,
            AgentTaskState::Failed,
            "agent_sdk.driver.error_classification.task_harness_mismatch",
            seq![("task_id"@, s@), ("expected"@, t@), ("got"@, u@)],
            Some(PlatformErrorCode::EnvironmentSetupFailed),
        ),
        reported_as(
            AgentDriverError::HarnessSetupFailed { harness: s, reason: t },
            bin,
            AgentTaskState::Failed,
            "agent_sdk.driver.error_classification.harness_setup_failed",
            seq![("harness"@, s@), ("reason"@, t@)],
            Some(PlatformErrorCode::EnvironmentSetupFailed),
        ),
        reported_as(
            AgentDriverError::HarnessConfigSetupFailed { harness: s, error: t },
            bin,
            AgentTaskState::Failed,
            "agent_sdk.driver.error_classification.harness_config_setup_failed",
            seq![("harness"@, s@), ("error"@, t@)],
            Some(PlatformErrorCode::EnvironmentSetupFailed),
        ),
{
}

/// Faults of Warp's own (the terminal, the runtime, bootstrapping, sharing, syncing,
/// cloud setup, team metadata, prompts, secrets, loading a conversation) put the task
/// in the `Error` state with `InternalError`; a harness command that exits with an
/// error fails the task with `InternalError`.
pub proof fn law_internal_faults_are_internal_errors(bin: Seq<char>, s: String, exit_code: i32)
    ensures
        reported_as(
            AgentDriverError::TerminalUnavailable,
            bin,
            AgentTaskState::Error,
            "agent_sdk.driver.error_classification.internal_error",
            Seq::empty(),
            Some(PlatformErrorCode::InternalError),
        ),
        reported_as(
            AgentDriverError::InvalidRuntimeState,
            bin,
            AgentTaskState::Error,
            "agent_sdk.driver.error_classification.internal_error",
            Seq::empty(),
            Some(PlatformErrorCode::InternalError),
        ),
        reported_as(
            AgentDriverError::BootstrapFailed,
            bin,
            AgentTaskState::Error,
            "agent_sdk.driver.error_classification.bootstrap_failed",
            Seq::empty(),
            Some(PlatformErrorCode::InternalError),
        ),
        reported_as(
            AgentDriverError::ShareSessionFailed { error: ShareSessionError::Internal(s) },
            bin,
            AgentTaskState::Error,
            "agent_sdk.driver.error_classification.share_internal",
            Seq::empty(),
            Some(PlatformErrorCode::InternalError),
        ),
        reported_as(
            AgentDriverError::ShareSessionFailed { error: ShareSessionError::Failed(s) },
            bin,
            AgentTaskState::Error,
            "agent_sdk.driver.error_classification.share_failed",
            seq![("reason"@, s@)],
            Some(PlatformErrorCode::InternalError),
        ),
        reported_as(
            AgentDriverError::ShareSessionFailed { error: ShareSessionError::Timeout },
            bin,
            AgentTaskState::Error,
            "agent_sdk.driver.error_classification.share_timeout",
            Seq::empty(),
            Some(PlatformErrorCode::InternalError),
        ),
        reported_as(
            AgentDriverError::ShareSessionFailed { error: ShareSessionError::Interrupted },
            bin,
            AgentTaskState::Error,
            "agent_sdk.driver.error_classification.share_interrupted",
            Seq::empty(),
            Some(PlatformErrorCode::InternalError),
        ),
        reported_as(
            AgentDriverError::WarpDriveSyncFailed,
            bin,
            AgentTaskState::Error,
            "agent_sdk.driver.error_classification.warp_drive_sync_failed",
            Seq::empty(),
            Some(PlatformErrorCode::InternalError),
        ),
        reported_as(
            AgentDriverError::CloudProviderSetupFailed(s),
            bin,
            AgentTaskState::Error,
            "agent_sdk.driver.error_classification.cloud_provider_setup_failed",
            seq![("error"@, s@)],
            Some(PlatformErrorCode::InternalError),
        ),
        reported_as(
            AgentDriverError::TeamMetadataRefreshTimeout,
            bin,
            AgentTaskState::Error,
            "agent_sdk.driver.error_classification.team_metadata_refresh_timeout",
            Seq::empty(),
            Some(PlatformErrorCode::InternalError),
        ),
        reported_as(
            AgentDriverError::PromptResolutionFailed(s),
            bin,
            AgentTaskState::Error,
            "agent_sdk.driver.error_classification.prompt_resolution_failed",
            seq![("error"@, s@)],
            Some(PlatformErrorCode::InternalError),
        ),
        reported_as(
            AgentDriverError::SecretsFetchFailed(s),
            bin,
            AgentTaskState::Error,
            "agent_sdk.driver.error_classification.secrets_fetch_failed",
            seq![("error"@, s@)],
            Some(PlatformErrorCode::InternalError),
        ),
        reported_as(
            AgentDriverError::ConversationLoadFailed(s),
            bin,
            AgentTaskState::Error,
            "agent_sdk.driver.error_classification.conversation_load_failed",
            seq![("message"@, s@)],
            Some(PlatformErrorCode::InternalError),
        ),
        reported_as(
            AgentDriverError::HarnessCommandFailed { exit_code },
            bin,
            AgentTaskState::Failed,
            "agent_sdk.driver.error_classification.harness_command_failed",
            seq![("exit_code"@, decimal(exit_code as int))],
            Some(PlatformErrorCode::InternalError),
        ),
{
}

/// A missing login, or a harness that is not signed in, asks for authentication;
/// the login message names the binary to run. Sharing that is switched off reports
/// that the feature is not available.
pub proof fn law_sign_in_and_disabled_features(bin: Seq<char>, s: String, t: String, u: String)
    ensures
        reported_as(
            AgentDriverError::NotLoggedIn,
            bin,
            AgentTaskState::Error,
            "agent_sdk.driver.error_classification.not_logged_in",
            seq![("bin"@, bin)],
            Some(PlatformErrorCode::AuthenticationRequired),
        ),
        reported_as(
            AgentDriverError::HarnessAuthCheckFailed { harness: s, detail: t },
            bin,
            AgentTaskState::Failed,
            "agent_sdk.driver.error_classification.harness_auth_check_failed",
            seq![("harness"@, s@)],
            Some(PlatformErrorCode::AuthenticationRequired),
        ),
        reported_as(
            AgentDriverError::HarnessRuntimeFailureDetected { harness: s, pattern: t, excerpt: u },
            bin,
            AgentTaskState::Failed,
            "agent_sdk.driver.error_classification.harness_runtime_failure_detected",
            seq![("harness"@, s@), ("pattern"@, t@), ("excerpt"@, u@)],
            Some(PlatformErrorCode::AuthenticationRequired),
        ),
        reported_as(
            AgentDriverError::ShareSessionFailed { error: ShareSessionError::Disabled },
            bin,
            AgentTaskState::Error,
            "agent_sdk.driver.error_classification.share_disabled",
            Seq::empty(),
            Some(PlatformErrorCode::FeatureNotAvailable),
        ),
{
}

/// A run the user cancelled, or one blocked on an action, is reported as such and
/// carries no error code; a blocked run's message names the action.
pub proof fn law_stopped_runs_carry_no_error_code(bin: Seq<char>, action: String)
    ensures
        reported_as(
            AgentDriverError::ConversationCancelled,
            bin,
            AgentTaskState::Cancelled,
            "agent_sdk.driver.error_classification.conversation_cancelled",
            Seq::empty(),
            None,
        ),
        reported_as(
            AgentDriverError::ConversationBlocked { blocked_action: action },
            bin,
            AgentTaskState::Blocked,
            "agent_sdk.driver.error_classification.conversation_blocked",
            seq![("blocked_action"@, action@)],
            None,
        ),
{
}

/// A conversation error keeps the state it came with and the update the conversation
/// layer gave it; without one, its own text is reported with `InternalError`.
pub proof fn law_conversation_errors_keep_their_report(
    bin: Seq<char>,
    state: AgentTaskState,
    update: TaskStatusUpdate,
    message: String,
)
    ensures
        classification_spec(AgentDriverError::ConversationError { state, update: Some(update), message }, bin)
            == (state, MessageView::Text(update.message@), update.error_code),
        classification_spec(AgentDriverError::ConversationError { state, update: None, message }, bin)
            == (state, MessageView::Text(message@), Some(PlatformErrorCode::InternalError)),
{
}

/// Instants in listing order: a missing instant before every instant, instants by
/// time.
pub open spec fn instant_le(a: Option<i128>, b: Option<i128>) -> bool {
    match (a, b) {
        (None, _) => true,
        (Some(_), None) => false,
        (Some(x), Some(y)) => x <= y,
    }
}

/// A listing sorted by a column is ordered by the field that the column names:
/// ascending, or descending when asked; names without regard to case.
pub proof fn law_sorted_listing_follows_its_column(
    before: Seq<ApiKeyInfo>,
    after: Seq<ApiKeyInfo>,
    by: ApiKeySortBy,
    descending: bool,
    i: int,
    j: int,
)
    requires
        sorted_by(before, after, api_key_sort_key(by), descending),
        0 <= i < j < after.len(),
    ensures
        by == ApiKeySortBy::ExpiresAt ==> if descending {
            instant_le(after[j].expires_at, after[i].expires_at)
        } else {
            instant_le(after[i].expires_at, after[j].expires_at)
        },
        by == ApiKeySortBy::LastUsedAt ==> if descending {
            instant_le(after[j].last_used_at, after[i].last_used_at)
        } else {
            instant_le(after[i].last_used_at, after[j].last_used_at)
        },
        by == ApiKeySortBy::CreatedAt ==> if descending {
            after[j].created_at <= after[i].created_at
        } else {
            after[i].created_at <= after[j].created_at
        },
        by == ApiKeySortBy::Scope ==> if descending {
            !text_lt(after[i].scope@, after[j].scope@)
        } else {
            !text_lt(after[j].scope@, after[i].scope@)
        },
        by == ApiKeySortBy::Name ==> if descending {
            !text_lt(unicode_lowercase(after[i].name@), unicode_lowercase(after[j].name@))
        } else {
            !text_lt(unicode_lowercase(after[j].name@), unicode_lowercase(after[i].name@))
        },
{
    let key = api_key_sort_key(by);
    let p = choose|p: Seq<int>| sorted_by_as(before, after, key, descending, p);
    assert(!crate::sort::ordered_lt(key(after[j]), key(after[i]), descending));
}

/// While a refresh runs or after one failed, the last loaded token is still attached
/// to requests until it expires, and no token is attached after that or when there is
/// none; so starting a refresh or failing one changes nothing a request sees while the
/// loaded token is valid.
pub proof fn law_last_token_serves_until_it_expires(c: CachedToken, message: String, now: u128)
    ensures
        cached_token_at(IapCredentialsState::Refreshing { previous: Some(c) }, now)
            == if c.expires_at > now { Some(c.token@) } else { None::<Seq<char>> },
        cached_token_at(IapCredentialsState::Failed { message, previous: Some(c) }, now)
            == if c.expires_at > now { Some(c.token@) } else { None::<Seq<char>> },
        cached_token_at(IapCredentialsState::Refreshing { previous: None }, now) == None::<Seq<char>>,
        cached_token_at(IapCredentialsState::Failed { message, previous: None }, now) == None::<Seq<char>>,
        c.expires_at > now ==> cached_token_at(
            IapCredentialsState::Refreshing { previous: previous_of(IapCredentialsState::Loaded(c)) },
            now,
        ) == cached_token_at(IapCredentialsState::Loaded(c), now),
        c.expires_at > now ==> cached_token_at(
            IapCredentialsState::Failed { message, previous: previous_of(IapCredentialsState::Loaded(c)) },
            now,
        ) == cached_token_at(IapCredentialsState::Loaded(c), now),
        cached_token_at(IapCredentialsState::Loaded(c), now) == Some(c.token@),
{
}

/// A successful operation shows the toast of what it did, with the object's name (and
/// where it went, for saves and moves); a failed one shows the failure of that
/// operation, with the name in lower case.
pub proof fn law_each_operation_has_its_own_toast(t: ObjectType, who: InitiatedBy)
    ensures
        toast_spec(t, ObjectOperation::Create { initiated_by: InitiatedBy::User }, OperationSuccessType::Success)
            == ToastSpec::ObjectAndLocation("cloud_object.toast.saved_to"),
        t != ObjectType::Notebook ==> toast_spec(t, ObjectOperation::Update, OperationSuccessType::Success)
            == ToastSpec::Object("cloud_object.toast.updated"),
        toast_spec(ObjectType::Notebook, ObjectOperation::Update, OperationSuccessType::Success) == ToastSpec::NoToast,
        toast_spec(t, ObjectOperation::MoveToFolder, OperationSuccessType::Success)
            == ToastSpec::ObjectAndLocation("cloud_object.toast.moved_to"),
        toast_spec(t, ObjectOperation::MoveToDrive, OperationSuccessType::Success)
            == ToastSpec::ObjectAndLocation("cloud_object.toast.moved_to"),
        toast_spec(t, ObjectOperation::Trash, OperationSuccessType::Success) == ToastSpec::Object("cloud_object.toast.trashed"),
        toast_spec(t, ObjectOperation::Untrash, OperationSuccessType::Success)
            == ToastSpec::Object("cloud_object.toast.restored"),
        toast_spec(t, ObjectOperation::Leave, OperationSuccessType::Success) == ToastSpec::Object("cloud_object.toast.left"),
        toast_spec(t, ObjectOperation::UpdatePermissions, OperationSuccessType::Success)
            == ToastSpec::ObjectLower("cloud_object.toast.updated_permissions"),
        toast_spec(t, ObjectOperation::Create { initiated_by: InitiatedBy::User }, OperationSuccessType::Failure)
            == ToastSpec::ObjectLower("cloud_object.toast.failed_create"),
        toast_spec(t, ObjectOperation::Update, OperationSuccessType::Failure)
            == ToastSpec::ObjectLower("cloud_object.toast.failed_update"),
        toast_spec(t, ObjectOperation::MoveToFolder, OperationSuccessType::Failure)
            == ToastSpec::ObjectLower("cloud_object.toast.failed_move"),
        toast_spec(t, ObjectOperation::MoveToDrive, OperationSuccessType::Failure)
            == ToastSpec::ObjectLower("cloud_object.toast.failed_move"),
        toast_spec(t, ObjectOperation::Trash, OperationSuccessType::Failure)
            == ToastSpec::ObjectLower("cloud_object.toast.failed_trash"),
        toast_spec(t, ObjectOperation::Untrash, OperationSuccessType::Failure)
            == ToastSpec::ObjectLower("cloud_object.toast.failed_restore"),
        toast_spec(t, ObjectOperation::Delete { initiated_by: InitiatedBy::User }, OperationSuccessType::Failure)
            == ToastSpec::ObjectLower("cloud_object.toast.failed_delete"),
        toast_spec(t, ObjectOperation::Leave, OperationSuccessType::Failure) == ToastSpec::Object("cloud_object.toast.failed_leave"),
        toast_spec(t, ObjectOperation::TakeEditAccess, OperationSuccessType::Failure)
            == ToastSpec::ObjectLower("cloud_object.toast.failed_start_editing"),
        toast_spec(t, ObjectOperation::UpdatePermissions, OperationSuccessType::Failure)
            == ToastSpec::ObjectLower("cloud_object.toast.failed_update_permissions"),
        toast_spec(t, ObjectOperation::Create { initiated_by: InitiatedBy::System }, OperationSuccessType::Success)
            == ToastSpec::NoToast,
        toast_spec(t, ObjectOperation::Delete { initiated_by: who }, OperationSuccessType::Success) == ToastSpec::NoToast,
        toast_spec(t, ObjectOperation::EmptyTrash, OperationSuccessType::Success) == ToastSpec::NoToast,
{
}

} // verus!
