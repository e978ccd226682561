use warp::skill_index::{
    extract_skill_parent_directory, is_home_directory, is_skill_file, project_skill_contents, RemoteBundledSkills, RemoteSkillsEvent, is_project_provider_path, path_text,
    update_might_affect_project_skills, IndexedSkill, RepoEntryUpdate, RepoNode, SkillIndex, SkillLayout,
    SkillLocation, SkillPathError,
};
use warp::skills::SkillPath;

fn p(s: &str) -> SkillPath {
    SkillPath { absolute: s.starts_with('/'), components: s.split('/').filter(|c| !c.is_empty()).map(str::to_string).collect() }
}

fn local(s: &str) -> SkillLocation {
    SkillLocation { host: None, path: p(s) }
}

fn remote(host: &str, s: &str) -> SkillLocation {
    SkillLocation { host: Some(host.to_string()), path: p(s) }
}

fn layout() -> SkillLayout {
    SkillLayout {
        provider_skills_paths: vec![
            vec![".agents".to_string(), "skills".to_string()],
            vec![".cursor".to_string(), "skills".to_string()],
        ],
        managed_skill_dirs: vec![p("/home/me/.warp/skills")],
        home_dir: Some(p("/home/me")),
    }
}

fn skill(name: &str, provider: u32) -> IndexedSkill<u32> {
    IndexedSkill { name: name.to_string(), provider, data: 0 }
}

fn texts(v: &[SkillLocation]) -> Vec<String> {
    v.iter().map(path_text).collect()
}

#[test]
fn skill_files_belong_to_the_directory_holding_the_skills_folder() {
    let l = layout();
    assert_eq!(
        extract_skill_parent_directory(&local("/repo/frontend/.agents/skills/deploy/SKILL.md"), &l),
        Ok(local("/repo/frontend"))
    );
    assert_eq!(
        extract_skill_parent_directory(&remote("h1", "/srv/.cursor/skills/x/SKILL.md"), &l),
        Ok(remote("h1", "/srv"))
    );
    assert_eq!(extract_skill_parent_directory(&local("/home/me/.warp/skills/tool/SKILL.md"), &l), Ok(local("/home/me")));
    assert_eq!(
        extract_skill_parent_directory(&local("/repo/.agents/skills/deploy/README.md"), &l),
        Err(SkillPathError::NotASkillPath)
    );
    assert_eq!(
        extract_skill_parent_directory(&local("/repo/other/deploy/SKILL.md"), &l),
        Err(SkillPathError::NotASkillPath)
    );
    assert_eq!(extract_skill_parent_directory(&local("/SKILL.md"), &l), Err(SkillPathError::NotASkillPath));
    let no_home = SkillLayout { home_dir: None, ..layout() };
    assert_eq!(
        extract_skill_parent_directory(&local("/home/me/.warp/skills/tool/SKILL.md"), &no_home),
        Err(SkillPathError::HomeDirectoryUnavailable)
    );
}

fn index() -> SkillIndex<u32> {
    let mut index = SkillIndex::new();
    index.handle_skills_added(
        vec![
            (local("/repo/.agents/skills/deploy/SKILL.md"), skill("deploy", 0)),
            (local("/repo/.cursor/skills/deploy/SKILL.md"), skill("deploy", 1)),
            (local("/repo/web/.agents/skills/lint/SKILL.md"), skill("lint", 0)),
            (local("/home/me/.agents/skills/notes/SKILL.md"), skill("notes", 0)),
            (remote("h1", "/srv/.agents/skills/deploy/SKILL.md"), skill("deploy", 2)),
            (local("/repo/not-a-skill.md"), skill("ignored", 0)),
        ],
        &layout(),
    );
    index
}

#[test]
fn names_list_their_files_in_path_order() {
    let index = index();
    assert_eq!(
        texts(&index.skill_paths_by_name("deploy")),
        ["/repo/.agents/skills/deploy/SKILL.md", "/repo/.cursor/skills/deploy/SKILL.md", "/srv/.agents/skills/deploy/SKILL.md"]
    );
    assert!(index.skill_paths_by_name("ignored").is_empty());
    assert_eq!(index.skill_by_path(&local("/repo/web/.agents/skills/lint/SKILL.md")).unwrap().name, "lint");
    assert!(index.skill_by_path(&local("/repo/not-a-skill.md")).is_none());
}

#[test]
fn directories_and_scopes_are_local_and_sorted() {
    let index = index();
    assert_eq!(index.directories_with_skills(), vec![p("/home/me"), p("/repo"), p("/repo/web")]);
    assert_eq!(
        index.skill_paths_in_scope(&p("/repo")),
        vec![
            p("/repo/.agents/skills/deploy/SKILL.md"),
            p("/repo/.cursor/skills/deploy/SKILL.md"),
            p("/repo/web/.agents/skills/lint/SKILL.md"),
        ]
    );
    assert_eq!(index.home_skill_paths(Some(&p("/home/me"))), vec![local("/home/me/.agents/skills/notes/SKILL.md")]);
    assert!(index.home_skill_paths(None).is_empty());
}

#[test]
fn providers_of_duplicated_skills() {
    let index = index();
    assert!(index.skill_exists_for_any_provider("deploy", 5, &[1]));
    assert!(!index.skill_exists_for_any_provider("lint", 5, &[1]));
    assert!(index.skill_exists_for_any_provider("lint", 5, &[5]));
    assert_eq!(index.best_supported_provider("deploy", 0, &[0, 2]), 0);
    assert_eq!(index.best_supported_provider("deploy", 3, &[2, 1]), 1);
    assert_eq!(index.best_supported_provider("lint", 3, &[2]), 3);
}

fn scoped(index: &SkillIndex<u32>, wd: Option<&SkillLocation>, root: Option<&SkillLocation>) -> Vec<(String, String)> {
    let mut v: Vec<(String, String)> = index
        .skills_for_working_directory(wd, Some(&p("/home/me")), root)
        .iter()
        .map(|(d, f)| (path_text(d), path_text(f)))
        .collect();
    v.sort();
    v
}

#[test]
fn working_directory_scope() {
    let mut index = index();
    let wd = local("/repo/web/src");
    assert_eq!(
        scoped(&index, Some(&wd), None),
        vec![
            ("/home/me".to_string(), "/home/me/.agents/skills/notes/SKILL.md".to_string()),
            ("/repo".to_string(), "/repo/.agents/skills/deploy/SKILL.md".to_string()),
            ("/repo".to_string(), "/repo/.cursor/skills/deploy/SKILL.md".to_string()),
            ("/repo/web".to_string(), "/repo/web/.agents/skills/lint/SKILL.md".to_string()),
        ]
    );
    // Within the repository rooted at /repo/web only that directory's skills count.
    let root = local("/repo/web");
    assert_eq!(scoped(&index, Some(&wd), Some(&root)).len(), 2);
    // A remote working directory sees that host's skills only when they contain it.
    let remote_wd = remote("h1", "/srv/app");
    assert_eq!(
        scoped(&index, Some(&remote_wd), None),
        vec![("/srv".to_string(), "/srv/.agents/skills/deploy/SKILL.md".to_string())]
    );
    assert!(scoped(&index, None, None).is_empty());
    index.set_cloud_environment(true);
    assert_eq!(scoped(&index, None, None).len(), 4);
}

#[test]
fn deleting_paths_forgets_their_skills() {
    let mut index = index();
    index.handle_path_deleted(&local("/repo/.cursor"));
    assert_eq!(texts(&index.skill_paths_by_name("deploy")), ["/repo/.agents/skills/deploy/SKILL.md", "/srv/.agents/skills/deploy/SKILL.md"]);
    assert!(index.skill_by_path(&local("/repo/.cursor/skills/deploy/SKILL.md")).is_none());
    assert_eq!(index.directories_with_skills(), vec![p("/home/me"), p("/repo"), p("/repo/web")]);

    index.handle_skills_deleted(vec![local("/repo")]);
    assert_eq!(index.directories_with_skills(), vec![p("/home/me")]);
    assert_eq!(texts(&index.skill_paths_by_name("deploy")), ["/srv/.agents/skills/deploy/SKILL.md"]);
    assert!(index.skill_paths_by_name("lint").is_empty());
}

#[test]
fn home_and_provider_paths() {
    assert!(is_home_directory(&local("/home/me"), Some(&p("/home/me"))));
    assert!(!is_home_directory(&remote("h", "/home/me"), Some(&p("/home/me"))));
    assert!(!is_home_directory(&local("/home/me"), None));
    assert!(is_project_provider_path(&p("/repo/.cursor/skills"), &layout()));
    assert!(!is_project_provider_path(&p("/repo/.cursor"), &layout()));
}

#[test]
fn repository_updates_that_can_change_skills() {
    let l = layout();
    let known = vec![local("/repo/.agents/skills/deploy/SKILL.md")];
    assert!(update_might_affect_project_skills(true, &[local("/repo/.agents")], Some(&known), &[], &l));
    assert!(!update_might_affect_project_skills(true, &[local("/repo/src")], Some(&known), &[], &l));
    assert!(!update_might_affect_project_skills(true, &[local("/repo/.agents")], None, &[], &l));
    let update = RepoEntryUpdate {
        parent_path_to_replace: local("/repo/src"),
        subtree: vec![RepoNode::File(local("/repo/src/main.rs")), RepoNode::Directory(local("/repo/src/.agents/skills"))],
    };
    assert!(update_might_affect_project_skills(true, &[], None, &[update.clone()], &l));
    assert!(!update_might_affect_project_skills(false, &[], None, &[update], &l));
    let skill_file = RepoEntryUpdate {
        parent_path_to_replace: remote("h", "/r"),
        subtree: vec![RepoNode::File(remote("h", "/r/.agents/skills/x/SKILL.md"))],
    };
    assert!(update_might_affect_project_skills(false, &[], None, &[skill_file], &l));
}

#[test]
fn remote_catalogs_follow_their_hosts() {
    let mut remote: RemoteBundledSkills<Vec<&str>> = RemoteBundledSkills::new();
    remote.handle_event(RemoteSkillsEvent::BundledSkillsSnapshot { host_id: "h1".to_string(), catalog: vec!["a"] }, true);
    remote.handle_event(RemoteSkillsEvent::BundledSkillsSnapshot { host_id: "h2".to_string(), catalog: vec!["b"] }, true);
    // A fresh snapshot replaces the host's catalog.
    remote.handle_event(RemoteSkillsEvent::BundledSkillsSnapshot { host_id: "h1".to_string(), catalog: vec!["c"] }, true);
    assert_eq!(remote.remote("h1"), Some(&vec!["c"]));
    // With bundled skills off, snapshots are ignored.
    remote.handle_event(RemoteSkillsEvent::BundledSkillsSnapshot { host_id: "h3".to_string(), catalog: vec!["d"] }, false);
    assert_eq!(remote.remote("h3"), None);
    remote.handle_event(RemoteSkillsEvent::HostDisconnected { host_id: "h2".to_string() }, true);
    assert_eq!(remote.remote("h2"), None);
    remote.handle_event(RemoteSkillsEvent::Other, true);
    assert_eq!(remote.remote("h1"), Some(&vec!["c"]));
}

#[test]
fn skill_files_are_skill_md_files_in_a_skills_folder() {
    let l = layout();
    assert!(is_skill_file(&p("/repo/.agents/skills/deploy/SKILL.md"), &l));
    assert!(is_skill_file(&p("/home/me/.warp/skills/tool/SKILL.md"), &l));
    assert!(!is_skill_file(&p("/repo/.agents/skills/deploy/README.md"), &l));
    assert!(!is_skill_file(&p("/repo/docs/deploy/SKILL.md"), &l));
    assert!(!is_skill_file(&p("/SKILL.md"), &l));
}

#[test]
fn project_skill_contents_keep_skill_files_and_local_provider_folders() {
    let l = layout();
    let nodes = vec![
        RepoNode::File(local("/repo/.agents/skills/deploy/SKILL.md")),
        RepoNode::File(local("/repo/src/main.rs")),
        RepoNode::Directory(local("/repo/.cursor/skills")),
        RepoNode::Directory(local("/repo/src")),
        RepoNode::File(local("/repo/web/.cursor/skills/lint/SKILL.md")),
    ];
    let (files, dirs) = project_skill_contents(true, &nodes, &l);
    assert_eq!(files, [local("/repo/.agents/skills/deploy/SKILL.md"), local("/repo/web/.cursor/skills/lint/SKILL.md")]);
    assert_eq!(dirs, [local("/repo/.cursor/skills")]);

    let remote_nodes = vec![
        RepoNode::File(remote("h1", "/srv/.agents/skills/x/SKILL.md")),
        RepoNode::Directory(remote("h1", "/srv/.agents/skills")),
    ];
    let (files, dirs) = project_skill_contents(false, &remote_nodes, &l);
    assert_eq!(files, [remote("h1", "/srv/.agents/skills/x/SKILL.md")]);
    assert!(dirs.is_empty());
}

#[test]
fn a_skill_added_again_replaces_the_earlier_one() {
    let mut index = index();
    let path = local("/repo/.agents/skills/deploy/SKILL.md");
    index.handle_skills_added(vec![(local("/repo/.agents/skills/deploy/SKILL.md"), skill("ship", 1))], &layout());
    let found = index.skill_by_path(&path).unwrap();
    assert_eq!(found.name, "ship");
    assert_eq!(found.provider, 1);
    assert_eq!(texts(&index.skill_paths_by_name("ship")), ["/repo/.agents/skills/deploy/SKILL.md"]);
    index.handle_skills_added(vec![(local("/repo/docs/SKILL.md"), skill("docs", 0))], &layout());
    assert!(index.skill_by_path(&local("/repo/docs/SKILL.md")).is_none());
}

#[test]
fn directories_order_parent_and_current_components_first() {
    let mut index: SkillIndex<u32> = SkillIndex::new();
    index.handle_skills_added(
        vec![
            (local("/a/-x/.agents/skills/y/SKILL.md"), skill("y", 0)),
            (local("/a/../b/.agents/skills/x/SKILL.md"), skill("x", 0)),
            (local("/a/.hidden/.agents/skills/z/SKILL.md"), skill("z", 0)),
        ],
        &layout(),
    );
    let dirs = index.directories_with_skills();
    let mut expected = vec![std::path::PathBuf::from("/a/-x"), std::path::PathBuf::from("/a/../b"), std::path::PathBuf::from("/a/.hidden")];
    expected.sort();
    let expected: Vec<SkillPath> = expected.iter().map(|d| p(d.to_str().unwrap())).collect();
    assert_eq!(dirs, expected);
    assert_eq!(dirs, vec![p("/a/../b"), p("/a/-x"), p("/a/.hidden")]);
}

#[test]
fn the_bundled_catalog_follows_the_working_directory_host() {
    let mut catalogs: RemoteBundledSkills<Vec<&str>> = RemoteBundledSkills::new();
    catalogs.insert_remote("h1".to_string(), vec!["remote"]);
    let local_catalog = vec!["local"];
    assert_eq!(catalogs.catalog_for_working_directory(&local_catalog, None), Some(&vec!["local"]));
    assert_eq!(catalogs.catalog_for_working_directory(&local_catalog, Some(&local("/repo"))), Some(&vec!["local"]));
    assert_eq!(catalogs.catalog_for_working_directory(&local_catalog, Some(&remote("h1", "/srv"))), Some(&vec!["remote"]));
    assert_eq!(catalogs.catalog_for_working_directory(&local_catalog, Some(&remote("h2", "/srv"))), None);
}
