use std::io::Write;
use std::path::Path;

use warp::skills::{
    activation_from_wire, bundled_skills_snapshot_protos, is_home_provider_path, is_home_skill_directory,
    mcp_integration_from_wire_id, mcp_integration_wire_id, snapshot_proto, BundledSkillActivation,
    BundledSkillDefinition, McpIntegration, SkillPath,
};

fn daemon_skill(id: &str, content: &str, activation: BundledSkillActivation) -> BundledSkillDefinition {
    BundledSkillDefinition {
        id: id.to_string(),
        name: id.to_string(),
        description: format!("{id} description"),
        path: format!("/daemon/bundled/skills/{id}/SKILL.md"),
        content: content.to_string(),
        activation,
    }
}

fn requires_file(path: &Path) -> BundledSkillActivation {
    BundledSkillActivation::RequiresFile { exists: path.exists() }
}

fn path(parts: &[&str]) -> SkillPath {
    SkillPath { absolute: true, components: parts.iter().map(|p| p.to_string()).collect() }
}

#[test]
fn snapshot_protos_serialize_activation_conditions() {
    let temp_dir = tempfile::TempDir::new().unwrap();
    let present_file = temp_dir.path().join("settings_schema.json");
    let mut file = tempfile::NamedTempFile::new_in(temp_dir.path()).unwrap();
    file.write_all(b"{}").unwrap();
    file.persist(&present_file).unwrap();
    let missing_file = temp_dir.path().join("missing.json");

    let catalog = vec![
        daemon_skill("always-skill", "# always", BundledSkillActivation::Always),
        daemon_skill("figma-skill", "# figma", BundledSkillActivation::RequiresMcp(McpIntegration::Figma)),
        daemon_skill("file-present-skill", "# file", requires_file(&present_file)),
        daemon_skill("file-missing-skill", "# missing", requires_file(&missing_file)),
    ];

    let protos = bundled_skills_snapshot_protos(&catalog);

    // `RequiresFile` is evaluated daemon-side: the missing-file skill is
    // dropped, the present-file skill ships as unconditionally active.
    let ids: Vec<&str> = protos.iter().map(|proto| proto.id.as_str()).collect();
    assert_eq!(ids, ["always-skill", "figma-skill", "file-present-skill"]);

    let figma = protos.iter().find(|proto| proto.id == "figma-skill").unwrap();
    assert_eq!(figma.requires_mcp.as_deref(), Some("figma"));
    for proto in protos.iter().filter(|proto| proto.id != "figma-skill") {
        assert_eq!(proto.requires_mcp, None);
    }

    let always = protos.iter().find(|proto| proto.id == "always-skill").unwrap();
    assert_eq!(always.path, "/daemon/bundled/skills/always-skill/SKILL.md");
    assert_eq!(always.content, "# always");
}

#[test]
fn snapshot_protos_are_sorted_by_id_whatever_the_catalog_order() {
    let catalog = vec![
        daemon_skill("zeta", "# z", BundledSkillActivation::Always),
        daemon_skill("alpha", "# a", BundledSkillActivation::RequiresFeature { enabled: true }),
        daemon_skill("mid", "# m", BundledSkillActivation::RequiresFeature { enabled: false }),
        daemon_skill("beta", "# b", BundledSkillActivation::Always),
    ];
    let protos = bundled_skills_snapshot_protos(&catalog);
    let ids: Vec<&str> = protos.iter().map(|proto| proto.id.as_str()).collect();
    assert_eq!(ids, ["alpha", "beta", "zeta"]);
    assert_eq!(protos[0].description, "alpha description");
}

#[test]
fn snapshot_proto_keeps_fields_and_drops_disabled_features() {
    let d = daemon_skill("x", "body", BundledSkillActivation::RequiresFeature { enabled: false });
    assert!(snapshot_proto(&d).is_none());
    let d = daemon_skill("x", "body", BundledSkillActivation::RequiresMcp(McpIntegration::Figma));
    let p = snapshot_proto(&d).unwrap();
    assert_eq!(p.name, "x");
    assert_eq!(p.content, "body");
    assert_eq!(p.requires_mcp.as_deref(), Some("figma"));
}

#[test]
fn mcp_wire_ids_round_trip() {
    assert_eq!(mcp_integration_wire_id(McpIntegration::Figma), "figma");
    assert_eq!(mcp_integration_from_wire_id("figma"), Some(McpIntegration::Figma));
    assert_eq!(mcp_integration_from_wire_id("not-a-real-integration"), None);
    assert_eq!(mcp_integration_from_wire_id("Figma"), None);
}

#[test]
fn activation_from_wire_skips_unknown_integrations() {
    assert_eq!(activation_from_wire(None), Some(BundledSkillActivation::Always));
    assert_eq!(
        activation_from_wire(Some("figma")),
        Some(BundledSkillActivation::RequiresMcp(McpIntegration::Figma))
    );
    assert_eq!(activation_from_wire(Some("not-a-real-integration")), None);
}

#[test]
fn home_provider_paths_and_skill_directories() {
    let homes = vec![path(&["home", "me", ".agents", "skills"]), path(&["home", "me", ".cursor", "skills"])];
    assert!(is_home_provider_path(&path(&["home", "me", ".agents", "skills"]), &homes));
    assert!(!is_home_provider_path(&path(&["home", "me", ".agents"]), &homes));
    assert!(is_home_skill_directory(&path(&["home", "me", ".cursor", "skills", "deploy"]), &homes));
    assert!(!is_home_skill_directory(&path(&["home", "me", ".cursor", "skills"]), &homes));
    assert!(!is_home_skill_directory(&SkillPath { absolute: true, components: vec![] }, &homes));
}

#[test]
fn snapshots_of_reordered_catalogs_are_equal() {
    let first = vec![
        daemon_skill("zeta", "# z", BundledSkillActivation::Always),
        daemon_skill("alpha", "# a", BundledSkillActivation::RequiresMcp(McpIntegration::Figma)),
        daemon_skill("beta", "# b", BundledSkillActivation::RequiresFile { exists: true }),
        daemon_skill("gamma", "# g", BundledSkillActivation::RequiresFile { exists: false }),
    ];
    let second = vec![first[2].clone(), first[3].clone(), first[0].clone(), first[1].clone()];
    let a = bundled_skills_snapshot_protos(&first);
    let b = bundled_skills_snapshot_protos(&second);
    assert_eq!(a, b);
    let ids: Vec<&str> = a.iter().map(|proto| proto.id.as_str()).collect();
    assert_eq!(ids, ["alpha", "beta", "zeta"]);
}
