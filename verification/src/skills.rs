//! Skills: where home skill directories are, the wire ids of MCP integrations, and the
//! bundled-skill catalogs that a daemon pushes to clients.

use vstd::prelude::*;

use crate::sort::{
    lemma_permutation_onto, lemma_text_lt_total, ordered_lt, sorted_by, sorted_by_as, stable_sort_by_keys, strictly_ascending, text_lt,
    uniform, KeyView, SortKey,
};
use crate::text::{chars_of, str_eq};

verus! {

/// An MCP integration that a bundled skill can require.
#[derive(Clone, Copy, Debug, PartialEq, Eq, Structural)]
pub enum McpIntegration {
    Figma,
}

/// The stable wire id of an integration.
pub open spec fn wire_id_of(integration: McpIntegration) -> &'static str {
    match integration {
        McpIntegration::Figma => "figma",
    }
}

/// The stable wire id of an integration in a bundled-skill snapshot.
pub fn mcp_integration_wire_id(integration: McpIntegration) -> (r: &'static str)
    ensures
        r == wire_id_of(integration),
{
    match integration {
        McpIntegration::Figma => "figma",
    }
}

/// The integration with a wire id, if any.
pub fn mcp_integration_from_wire_id(wire_id: &str) -> (r: Option<McpIntegration>)
    ensures
        match r {
            Some(i) => wire_id@ == wire_id_of(i)@,
            None => forall|i: McpIntegration| wire_id@ != #[trigger] wire_id_of(i)@,
        },
{
    if str_eq(wire_id, "figma") {
        Some(McpIntegration::Figma)
    } else {
        proof {
            assert forall|i: McpIntegration| wire_id@ != #[trigger] wire_id_of(i)@ by {
                match i {
                    McpIntegration::Figma => {},
                }
            }
        }
        None
    }
}

/// A file system path as its components; absolute paths start at the root.
#[derive(Clone, Debug, PartialEq, Eq)]
pub struct SkillPath {
    pub absolute: bool,
    pub components: Vec<String>,
}

/// A path as a spec value: whether it is absolute and its components.
pub open spec fn path_view(p: SkillPath) -> (bool, Seq<Seq<char>>) {
    (p.absolute, p.components@.map_values(|c: String| c@))
}

/// The parent of a path: without its last component; none for the root or an empty path.
pub open spec fn parent_view(p: (bool, Seq<Seq<char>>)) -> Option<(bool, Seq<Seq<char>>)> {
    if p.1.len() == 0 {
        None
    } else {
        Some((p.0, p.1.drop_last()))
    }
}

/// Whether `path` is one of the home skill directories of the providers (for example
/// `~/.agents/skills`).
pub open spec fn is_home_provider_path_spec(path: (bool, Seq<Seq<char>>), home_dirs: Seq<SkillPath>) -> bool {
    exists|i: int| 0 <= i < home_dirs.len() && path_view(home_dirs[i]) == path
}

fn path_eq_parts(a: &SkillPath, b: &SkillPath, n: usize) -> (r: bool)
    requires
        n <= a.components@.len(),
    ensures
        r == (a.absolute == b.absolute && b.components@.len() == n && forall|k: int|
            0 <= k < n ==> a.components@[k]@ == b.components@[k]@),
{
    if a.absolute != b.absolute || b.components.len() != n {
        return false;
    }
    let mut k: usize = 0;
    while k < n
        invariant
            n <= a.components@.len(),
            b.components@.len() == n,
            k <= n,
            forall|q: int| 0 <= q < k ==> a.components@[q]@ == b.components@[q]@,
        decreases n - k,
    {
        if !str_eq(a.components[k].as_str(), b.components[k].as_str()) {
            return false;
        }
        k = k + 1;
    }
    true
}

/// Whether the first `n` components of `path` form one of the home skill directories.
fn is_home_provider_prefix(path: &SkillPath, n: usize, home_dirs: &[SkillPath]) -> (r: bool)
    requires
        n <= path.components@.len(),
    ensures
        r == is_home_provider_path_spec(
            (path.absolute, path.components@.take(n as int).map_values(|c: String| c@)),
            home_dirs@,
        ),
{
    let ghost target = (path.absolute, path.components@.take(n as int).map_values(|c: String| c@));
    let mut i: usize = 0;
    while i < home_dirs.len()
        invariant
            n <= path.components@.len(),
            target == (path.absolute, path.components@.take(n as int).map_values(|c: String| c@)),
            i <= home_dirs@.len(),
            forall|q: int| 0 <= q < i ==> path_view(home_dirs@[q]) != target,
        decreases home_dirs@.len() - i,
    {
        let same = path_eq_parts(path, &home_dirs[i], n);
        proof {
            let d = path_view(home_dirs@[i as int]);
            if same {
                assert(d.1 =~= target.1);
            } else if d.1.len() == target.1.len() && d.0 == target.0 {
                assert(exists|k: int| 0 <= k < n && path.components@[k]@ != home_dirs@[i as int].components@[k]@);
                let k = choose|k: int| 0 <= k < n && path.components@[k]@ != home_dirs@[i as int].components@[k]@;
                assert(d.1[k] != target.1[k]);
            }
        }
        if same {
            return true;
        }
        i = i + 1;
    }
    false
}

/// Whether `path` is a home skill directory of a provider (for example `~/.agents/skills`).
pub fn is_home_provider_path(path: &SkillPath, home_dirs: &[SkillPath]) -> (r: bool)
    ensures
        r == is_home_provider_path_spec(path_view(*path), home_dirs@),
{
    let r = is_home_provider_prefix(path, path.components.len(), home_dirs);
    assert(path.components@.take(path.components@.len() as int) =~= path.components@);
    r
}

/// Whether `path` is a skill directory in a home provider directory (for example
/// `~/.agents/skills/skill-name`).
pub fn is_home_skill_directory(path: &SkillPath, home_dirs: &[SkillPath]) -> (r: bool)
    ensures
        r == match parent_view(path_view(*path)) {
            Some(parent) => is_home_provider_path_spec(parent, home_dirs@),
            None => false,
        },
{
    let n = path.components.len();
    if n == 0 {
        return false;
    }
    let r = is_home_provider_prefix(path, n - 1, home_dirs);
    assert(path.components@.take(n - 1).map_values(|c: String| c@) =~= path_view(*path).1.drop_last());
    r
}

/// When a bundled skill is active, as the daemon that owns it evaluates it: feature
/// flags and files are checked where the catalog lives, so their outcome is carried.
#[derive(Clone, Copy, Debug, PartialEq, Eq, Structural)]
pub enum BundledSkillActivation {
    Always,
    RequiresMcp(McpIntegration),
    RequiresFeature { enabled: bool },
    RequiresFile { exists: bool },
}

/// A skill of a bundled catalog.
#[derive(Clone, Debug, PartialEq, Eq)]
pub struct BundledSkillDefinition {
    pub id: String,
    pub name: String,
    pub description: String,
    pub path: String,
    pub content: String,
    pub activation: BundledSkillActivation,
}

/// A bundled skill as a daemon sends it to a client.
#[derive(Clone, Debug, PartialEq, Eq)]
pub struct BundledSkillProto {
    pub id: String,
    pub name: String,
    pub description: String,
    pub path: String,
    pub content: String,
    pub requires_mcp: Option<String>,
}

/// What a client may receive of an activation: `None` when the skill is left out,
/// `Some(None)` when it is always active, `Some(Some(id))` when it needs an integration.
pub open spec fn wire_requirement(a: BundledSkillActivation) -> Option<Option<Seq<char>>> {
    match a {
        BundledSkillActivation::Always => Some(None),
        BundledSkillActivation::RequiresMcp(i) => Some(Some(wire_id_of(i)@)),
        BundledSkillActivation::RequiresFeature { enabled } => if enabled {
            Some(None)
        } else {
            None
        },
        BundledSkillActivation::RequiresFile { exists } => if exists {
            Some(None)
        } else {
            None
        },
    }
}

pub open spec fn opt_string_view(o: Option<String>) -> Option<Seq<char>> {
    match o {
        Some(s) => Some(s@),
        None => None,
    }
}

/// Whether a proto carries a definition with the given requirement.
pub open spec fn proto_of(p: BundledSkillProto, d: BundledSkillDefinition, req: Option<Seq<char>>) -> bool {
    &&& p.id@ == d.id@
    &&& p.name@ == d.name@
    &&& p.description@ == d.description@
    &&& p.path@ == d.path@
    &&& p.content@ == d.content@
    &&& opt_string_view(p.requires_mcp) == req
}

/// The proto of a definition, if the client may receive it.
pub fn snapshot_proto(d: &BundledSkillDefinition) -> (r: Option<BundledSkillProto>)
    ensures
        match wire_requirement(d.activation) {
            None => r is None,
            Some(req) => r matches Some(p) && proto_of(p, *d, req),
        },
{
    let requires_mcp = match d.activation {
        BundledSkillActivation::Always => None,
        BundledSkillActivation::RequiresMcp(integration) => Some(mcp_integration_wire_id(integration).to_owned()),
        BundledSkillActivation::RequiresFeature { enabled } => {
            if !enabled {
                return None;
            }
            None
        },
        BundledSkillActivation::RequiresFile { exists } => {
            if !exists {
                return None;
            }
            None
        },
    };
    Some(
        BundledSkillProto {
            id: d.id.clone(),
            name: d.name.clone(),
            description: d.description.clone(),
            path: d.path.clone(),
            content: d.content.clone(),
            requires_mcp,
        },
    )
}

/// The activation of a skill that a client received: always active without a
/// requirement; needing the integration a known wire id names; none for an unknown
/// wire id, whose skill the client skips as it cannot evaluate the condition.
pub fn activation_from_wire(requires_mcp: Option<&str>) -> (r: Option<BundledSkillActivation>)
    ensures
        match requires_mcp {
            None => r == Some(BundledSkillActivation::Always),
            Some(id) => match r {
                Some(a) => exists|i: McpIntegration| a == BundledSkillActivation::RequiresMcp(i) && id@ == wire_id_of(i)@,
                None => forall|i: McpIntegration| id@ != #[trigger] wire_id_of(i)@,
            },
        },
{
    match requires_mcp {
        None => Some(BundledSkillActivation::Always),
        Some(id) => match mcp_integration_from_wire_id(id) {
            Some(integration) => Some(BundledSkillActivation::RequiresMcp(integration)),
            None => None,
        },
    }
}

/// Whether a client may receive a definition.
pub open spec fn is_shipped(d: BundledSkillDefinition) -> bool {
    wire_requirement(d.activation) is Some
}

/// The definitions a client may receive, in catalog order.
pub open spec fn shipped_definitions(defs: Seq<BundledSkillDefinition>) -> Seq<BundledSkillDefinition> {
    defs.filter(|d: BundledSkillDefinition| is_shipped(d))
}

/// `protos` carries `defs`, one proto for each definition, in order.
pub open spec fn protos_for(protos: Seq<BundledSkillProto>, defs: Seq<BundledSkillDefinition>) -> bool {
    &&& protos.len() == defs.len()
    &&& forall|k: int|
        0 <= k < protos.len() ==> proto_of(
            #[trigger] protos[k],
            defs[k],
            wire_requirement(defs[k].activation).unwrap(),
        )
}

/// Protos are ordered by skill id.
pub open spec fn proto_id_key() -> spec_fn(BundledSkillProto) -> KeyView {
    |p: BundledSkillProto| KeyView::Text(p.id@)
}

/// `r` is the snapshot of `catalog`: the protos of the definitions a client may receive,
/// sorted stably by skill id.
pub open spec fn snapshot_of(catalog: Seq<BundledSkillDefinition>, r: Seq<BundledSkillProto>) -> bool {
    exists|f: Seq<BundledSkillProto>|
        protos_for(f, shipped_definitions(catalog)) && sorted_by(f, r, proto_id_key(), false)
}

/// No two definitions share a skill id.
pub open spec fn ids_distinct(defs: Seq<BundledSkillDefinition>) -> bool {
    forall|k: int, l: int| 0 <= k < l < defs.len() ==> (#[trigger] defs[k]).id@ != (#[trigger] defs[l]).id@
}

/// Two protos carry the same skill.
pub open spec fn same_proto(a: BundledSkillProto, b: BundledSkillProto) -> bool {
    &&& a.id@ == b.id@
    &&& a.name@ == b.name@
    &&& a.description@ == b.description@
    &&& a.path@ == b.path@
    &&& a.content@ == b.content@
    &&& opt_string_view(a.requires_mcp) == opt_string_view(b.requires_mcp)
}

/// The skill ids of protos, in order.
pub open spec fn proto_ids(r: Seq<BundledSkillProto>) -> Seq<Seq<char>> {
    r.map_values(|p: BundledSkillProto| p.id@)
}

/// Whether `p` is the proto of `d`.
pub open spec fn carries(p: BundledSkillProto, d: BundledSkillDefinition) -> bool {
    proto_of(p, d, wire_requirement(d.activation).unwrap())
}

/// `p` is the proto of one of `defs`.
pub open spec fn carries_one_of(p: BundledSkillProto, defs: Seq<BundledSkillDefinition>) -> bool {
    exists|i: int| 0 <= i < defs.len() && carries(p, defs[i])
}

/// One of `r` is the proto of `d`.
pub open spec fn carried_by(r: Seq<BundledSkillProto>, d: BundledSkillDefinition) -> bool {
    exists|k: int| 0 <= k < r.len() && carries(r[k], d)
}

/// A snapshot of definitions with distinct ids holds each of them once, in strictly
/// ascending order of id.
pub proof fn lemma_snapshot_shape(catalog: Seq<BundledSkillDefinition>, r: Seq<BundledSkillProto>)
    requires
        snapshot_of(catalog, r),
        ids_distinct(shipped_definitions(catalog)),
    ensures
        r.len() == shipped_definitions(catalog).len(),
        strictly_ascending(proto_ids(r)),
        forall|k: int| 0 <= k < r.len() ==> carries_one_of(#[trigger] r[k], shipped_definitions(catalog)),
        forall|i: int|
            0 <= i < shipped_definitions(catalog).len() ==> carried_by(r, #[trigger] shipped_definitions(catalog)[i]),
{
    let defs = shipped_definitions(catalog);
    let key = proto_id_key();
    let f = choose|f: Seq<BundledSkillProto>| protos_for(f, defs) && sorted_by(f, r, key, false);
    let p = choose|p: Seq<int>| sorted_by_as(f, r, key, false, p);
    let ids = proto_ids(r);
    assert forall|k: int, l: int| 0 <= k < l < ids.len() implies text_lt(#[trigger] ids[k], #[trigger] ids[l]) by {
        assert(r[k] == f[p[k]]);
        assert(r[l] == f[p[l]]);
        assert(p[k] != p[l]);
        assert(proto_of(f[p[k]], defs[p[k]], wire_requirement(defs[p[k]].activation).unwrap()));
        assert(proto_of(f[p[l]], defs[p[l]], wire_requirement(defs[p[l]].activation).unwrap()));
        if p[k] < p[l] {
            assert(defs[p[k]].id@ != defs[p[l]].id@);
        } else {
            assert(defs[p[l]].id@ != defs[p[k]].id@);
        }
        assert(!ordered_lt(key(r[l]), key(r[k]), false));
        lemma_text_lt_total(ids[k], ids[l]);
    }
    assert forall|k: int| 0 <= k < r.len() implies carries_one_of(#[trigger] r[k], defs) by {
        assert(r[k] == f[p[k]]);
        assert(proto_of(f[p[k]], defs[p[k]], wire_requirement(defs[p[k]].activation).unwrap()));
    }
    assert forall|i: int| 0 <= i < defs.len() implies carried_by(r, #[trigger] defs[i]) by {
        lemma_permutation_onto(p, f.len() as int, i);
        let k = choose|k: int| 0 <= k < f.len() && p[k] == i;
        assert(r[k] == f[i]);
        assert(proto_of(f[i], defs[i], wire_requirement(defs[i].activation).unwrap()));
    }
}

/// Filtering a sequence and counting its elements commute.
pub proof fn lemma_filter_to_multiset<A>(s: Seq<A>, pred: spec_fn(A) -> bool)
    ensures
        s.filter(pred).to_multiset() =~= s.to_multiset().filter(pred),
    decreases s.len(),
{
    broadcast use vstd::seq_lib::group_to_multiset_ensures, vstd::multiset::group_multiset_axioms;

    reveal(Seq::filter);
    if s.len() == 0 {
        assert(s.filter(pred) =~= Seq::<A>::empty());
        assert(s =~= Seq::<A>::empty());
        assert(s.to_multiset() =~= vstd::multiset::Multiset::<A>::empty());
        assert(s.filter(pred).to_multiset() =~= vstd::multiset::Multiset::<A>::empty());
    } else {
        let rest = s.drop_last();
        lemma_filter_to_multiset(rest, pred);
        assert(s == rest.push(s.last()));
        assert(s.to_multiset() =~= rest.to_multiset().insert(s.last()));
        if pred(s.last()) {
            assert(s.filter(pred) == rest.filter(pred).push(s.last()));
            assert(s.filter(pred).to_multiset() =~= rest.filter(pred).to_multiset().insert(s.last()));
        } else {
            assert(s.filter(pred) == rest.filter(pred));
        }
    }
}

/// The catalog as a daemon pushes it to clients: each definition that a client may
/// receive (file and feature conditions settled here), as a proto, sorted by skill id so
/// that pushes do not depend on the catalog's order.
pub fn bundled_skills_snapshot_protos(catalog: &[BundledSkillDefinition]) -> (r: Vec<BundledSkillProto>)
    ensures
        snapshot_of(catalog@, r@),
{
    let ghost pred = |d: BundledSkillDefinition| is_shipped(d);
    let mut protos: Vec<BundledSkillProto> = Vec::new();
    let mut i: usize = 0;
    while i < catalog.len()
        invariant
            pred == (|d: BundledSkillDefinition| is_shipped(d)),
            i <= catalog@.len(),
            protos_for(protos@, catalog@.take(i as int).filter(pred)),
        decreases catalog@.len() - i,
    {
        proof {
            reveal(Seq::filter);
            assert(catalog@.take(i + 1).drop_last() =~= catalog@.take(i as int));
        }
        match snapshot_proto(&catalog[i]) {
            Some(p) => protos.push(p),
            None => {},
        }
        i = i + 1;
    }
    proof {
        assert(catalog@.take(catalog@.len() as int) =~= catalog@);
    }
    let ghost f = protos@;
    let ghost key = proto_id_key();
    let mut keys: Vec<SortKey> = Vec::new();
    let mut k: usize = 0;
    while k < protos.len()
        invariant
            key == proto_id_key(),
            k <= protos@.len(),
            keys@.len() == k,
            forall|q: int| 0 <= q < k ==> #[trigger] keys@[q]@ == key(protos@[q]),
        decreases protos@.len() - k,
    {
        keys.push(SortKey::Text(chars_of(protos[k].id.as_str())));
        k = k + 1;
    }
    proof {
        assert(uniform(protos@, key));
    }
    stable_sort_by_keys(&mut protos, &mut keys, false, Ghost(key));
    proof {
        assert(shipped_definitions(catalog@) == catalog@.filter(pred));
        assert(protos_for(f, shipped_definitions(catalog@)));
    }
    protos
}

} // verus!
