//! The reusable world-module registry and the demonstration layout built from
//! it: the rules that decide whether a registry and a layout can be used.
//!
//! Geometry is checked by the caller, which records for each module and point
//! whether its numbers are finite and its bounds ordered; file presence is
//! recorded the same way.
use vstd::prelude::*;

use crate::captions::utf8_len_of;
use crate::text::{append_chars, append_str, chars_of, decimal, decimal_chars, str_eq, string_of, utf8_len};

verus! {

/// A named point of a module (socket, staging mark, camera anchor, ...).
#[derive(Debug, Clone)]
pub struct SemanticPoint {
    pub id: String,
    pub node: String,
    /// Every coordinate of the point is finite.
    pub finite: bool,
}

/// One reusable module of the registry.
#[derive(Debug)]
pub struct WorldModule {
    pub module_id: String,
    pub category: String,
    pub version: u32,
    pub asset: String,
    pub source_blend: String,
    pub preview: String,
    /// Whether each of `asset`, `source_blend` and `preview` is a file under
    /// the project root.
    pub asset_exists: bool,
    pub source_blend_exists: bool,
    pub preview_exists: bool,
    pub glb_sha256: String,
    /// Every bound coordinate is finite.
    pub bounds_finite: bool,
    /// The minimum is below the maximum on every axis.
    pub bounds_ordered: bool,
    pub sockets: Vec<SemanticPoint>,
    pub staging_marks: Vec<SemanticPoint>,
    pub camera_anchors: Vec<SemanticPoint>,
    pub interactions: Vec<SemanticPoint>,
    pub cutaway_groups: Vec<SemanticPoint>,
    pub collision_groups: Vec<SemanticPoint>,
    pub tags: Vec<String>,
    /// The module records where it came from.
    pub has_provenance: bool,
}

/// The registry of modules.
#[derive(Debug)]
pub struct WorldModuleRegistry {
    pub schema_version: u32,
    pub registry_version: u32,
    pub coordinate_system: String,
    pub module_count: u64,
    pub modules: Vec<WorldModule>,
}

/// A module placed in a layout under a role.
#[derive(Debug)]
pub struct ModuleInstance {
    pub instance_id: String,
    pub role: String,
    pub module_id: String,
    pub module_version: u32,
    pub category: String,
    /// Every number of the instance's transform is finite.
    pub transform_finite: bool,
}

/// A socket-to-socket connection between two placed modules.
#[derive(Debug, Clone)]
pub struct ModuleConnection {
    pub from_role: String,
    pub from_socket: String,
    pub to_role: String,
    pub to_socket: String,
}

/// A deterministic arrangement of modules.
#[derive(Debug)]
pub struct DemonstrationLayout {
    pub schema_version: u32,
    pub world_seed: u64,
    pub registry_version: u32,
    pub layout_algorithm: String,
    pub layout_fingerprint: String,
    pub instances: Vec<ModuleInstance>,
    pub connections: Vec<ModuleConnection>,
    pub notes: String,
}

// ---------------------------------------------------------------------------
// Registry rules
// ---------------------------------------------------------------------------

/// The first problem among `pts` (a list of `kind` points of module `mid`),
/// the ids in `seen` already taken: a repeated id, then a non-finite point.
pub open spec fn points_problem(
    mid: Seq<char>,
    kind: Seq<char>,
    pts: Seq<SemanticPoint>,
    seen: Seq<Seq<char>>,
) -> Option<Seq<char>>
    decreases pts.len(),
{
    if pts.len() == 0 {
        None
    } else if seen.contains(pts[0].id@) {
        Some("module "@ + mid + " has duplicate "@ + kind + " "@ + pts[0].id@)
    } else if !pts[0].finite {
        Some("module "@ + mid + " has non-finite "@ + kind + " "@ + pts[0].id@)
    } else {
        points_problem(mid, kind, pts.drop_first(), seen.push(pts[0].id@))
    }
}

/// The first problem of a module, the ids of the modules before it taken.
pub open spec fn module_problem(m: WorldModule, earlier: Seq<Seq<char>>) -> Option<Seq<char>> {
    let id = m.module_id@;
    if earlier.contains(id) {
        Some("duplicate module id "@ + id)
    } else if !m.asset_exists {
        Some("module "@ + id + " references missing file "@ + m.asset@)
    } else if !m.source_blend_exists {
        Some("module "@ + id + " references missing file "@ + m.source_blend@)
    } else if !m.preview_exists {
        Some("module "@ + id + " references missing file "@ + m.preview@)
    } else if utf8_len(m.glb_sha256@) != 64 {
        Some("module "@ + id + " has invalid GLB hash"@)
    } else if !m.bounds_finite {
        Some("module "@ + id + " has non-finite bounds"@)
    } else if !m.bounds_ordered {
        Some("module "@ + id + " has inverted bounds"@)
    } else if points_problem(id, "socket"@, m.sockets@, seq![]) is Some {
        points_problem(id, "socket"@, m.sockets@, seq![])
    } else if points_problem(id, "staging mark"@, m.staging_marks@, seq![]) is Some {
        points_problem(id, "staging mark"@, m.staging_marks@, seq![])
    } else if points_problem(id, "camera anchor"@, m.camera_anchors@, seq![]) is Some {
        points_problem(id, "camera anchor"@, m.camera_anchors@, seq![])
    } else if m.sockets@.len() == 0 || m.staging_marks@.len() == 0 || m.camera_anchors@.len()
        == 0 {
        Some("module "@ + id + " lacks production semantics"@)
    } else if m.collision_groups@.len() == 0 {
        Some("module "@ + id + " lacks a collision proxy"@)
    } else if !m.has_provenance {
        Some("module "@ + id + " lacks provenance"@)
    } else {
        None
    }
}

/// The first problem among `ms`, the ids in `seen` already taken.
pub open spec fn modules_problem(ms: Seq<WorldModule>, seen: Seq<Seq<char>>) -> Option<Seq<char>>
    decreases ms.len(),
{
    if ms.len() == 0 {
        None
    } else if module_problem(ms[0], seen) is Some {
        module_problem(ms[0], seen)
    } else {
        modules_problem(ms.drop_first(), seen.push(ms[0].module_id@))
    }
}

/// The first problem of a registry, if any.
pub open spec fn registry_problem(r: WorldModuleRegistry) -> Option<Seq<char>> {
    if r.schema_version != 1 {
        Some("unsupported world registry schema "@ + decimal(r.schema_version as nat))
    } else if r.module_count != r.modules@.len() {
        Some(
            "module_count "@ + decimal(r.module_count as nat) + " does not match "@ + decimal(
                r.modules@.len(),
            ) + " entries"@,
        )
    } else {
        modules_problem(r.modules@, seq![])
    }
}

fn contains_id(ids: &Vec<String>, id: &str) -> (r: bool)
    ensures
        r == Seq::new(ids@.len(), |i: int| ids@[i]@).contains(id@),
{
    let ghost v = Seq::new(ids@.len(), |i: int| ids@[i]@);
    let mut i: usize = 0;
    while i < ids.len()
        invariant
            i <= ids@.len(),
            v == Seq::new(ids@.len(), |i: int| ids@[i]@),
            forall|k: int| 0 <= k < i ==> v[k] != id@,
        decreases ids@.len() - i,
    {
        if str_eq(ids[i].as_str(), id) {
            assert(v[i as int] == id@);
            return true;
        }
        i += 1;
    }
    false
}

fn msg2(a: &str, b: &str) -> (r: String)
    ensures
        r@ == a@ + b@,
{
    let mut v = chars_of(a);
    append_str(&mut v, b);
    string_of(&v)
}

fn msg3(a: &str, b: &str, c: &str) -> (r: String)
    ensures
        r@ == a@ + b@ + c@,
{
    let mut v = chars_of(a);
    append_str(&mut v, b);
    append_str(&mut v, c);
    string_of(&v)
}

fn msg4(a: &str, b: &str, c: &str, d: &str) -> (r: String)
    ensures
        r@ == a@ + b@ + c@ + d@,
{
    let mut v = chars_of(a);
    append_str(&mut v, b);
    append_str(&mut v, c);
    append_str(&mut v, d);
    string_of(&v)
}

fn msg6(a: &str, b: &str, c: &str, d: &str, e: &str, f: &str) -> (r: String)
    ensures
        r@ == a@ + b@ + c@ + d@ + e@ + f@,
{
    let mut v = chars_of(a);
    append_str(&mut v, b);
    append_str(&mut v, c);
    append_str(&mut v, d);
    append_str(&mut v, e);
    append_str(&mut v, f);
    string_of(&v)
}

fn check_points(mid: &str, kind: &str, pts: &Vec<SemanticPoint>) -> (r: Result<(), String>)
    ensures
        match points_problem(mid@, kind@, pts@, seq![]) {
            Some(m) => r matches Err(e) && e@ == m,
            None => r is Ok,
        },
{
    let mut seen: Vec<String> = Vec::new();
    let mut i: usize = 0;
    assert(pts@.skip(0) =~= pts@);
    assert(Seq::new(seen@.len(), |k: int| seen@[k]@) =~= Seq::<Seq<char>>::empty());
    while i < pts.len()
        invariant
            i <= pts@.len(),
            seen@.len() == i,
            forall|k: int| 0 <= k < i ==> #[trigger] seen@[k]@ == pts@[k].id@,
            points_problem(mid@, kind@, pts@, seq![]) == points_problem(
                mid@,
                kind@,
                pts@.skip(i as int),
                Seq::new(seen@.len(), |k: int| seen@[k]@),
            ),
        decreases pts@.len() - i,
    {
        let p = &pts[i];
        let ghost rest = pts@.skip(i as int);
        assert(rest[0] == pts@[i as int]);
        assert(rest.drop_first() =~= pts@.skip(i + 1));
        if contains_id(&seen, p.id.as_str()) {
            return Err(msg6("module ", mid, " has duplicate ", kind, " ", p.id.as_str()));
        }
        if !p.finite {
            return Err(msg6("module ", mid, " has non-finite ", kind, " ", p.id.as_str()));
        }
        let ghost old_seen = Seq::new(seen@.len(), |k: int| seen@[k]@);
        seen.push(string_of(&chars_of(p.id.as_str())));
        assert(Seq::new(seen@.len(), |k: int| seen@[k]@) =~= old_seen.push(p.id@));
        i += 1;
    }
    Ok(())
}

fn check_module(m: &WorldModule, earlier: &Vec<String>) -> (r: Result<(), String>)
    ensures
        match module_problem(*m, Seq::new(earlier@.len(), |i: int| earlier@[i]@)) {
            Some(msg) => r matches Err(e) && e@ == msg,
            None => r is Ok,
        },
{
    let id = m.module_id.as_str();
    if contains_id(earlier, id) {
        return Err(msg2("duplicate module id ", id));
    }
    if !m.asset_exists {
        return Err(msg4("module ", id, " references missing file ", m.asset.as_str()));
    }
    if !m.source_blend_exists {
        return Err(msg4("module ", id, " references missing file ", m.source_blend.as_str()));
    }
    if !m.preview_exists {
        return Err(msg4("module ", id, " references missing file ", m.preview.as_str()));
    }
    if utf8_len_of(&chars_of(m.glb_sha256.as_str())) != 64 {
        return Err(msg3("module ", id, " has invalid GLB hash"));
    }
    if !m.bounds_finite {
        return Err(msg3("module ", id, " has non-finite bounds"));
    }
    if !m.bounds_ordered {
        return Err(msg3("module ", id, " has inverted bounds"));
    }
    match check_points(id, "socket", &m.sockets) {
        Err(e) => {
            return Err(e);
        },
        Ok(()) => {},
    }
    match check_points(id, "staging mark", &m.staging_marks) {
        Err(e) => {
            return Err(e);
        },
        Ok(()) => {},
    }
    match check_points(id, "camera anchor", &m.camera_anchors) {
        Err(e) => {
            return Err(e);
        },
        Ok(()) => {},
    }
    if m.sockets.len() == 0 || m.staging_marks.len() == 0 || m.camera_anchors.len() == 0 {
        return Err(msg3("module ", id, " lacks production semantics"));
    }
    if m.collision_groups.len() == 0 {
        return Err(msg3("module ", id, " lacks a collision proxy"));
    }
    if !m.has_provenance {
        return Err(msg3("module ", id, " lacks provenance"));
    }
    Ok(())
}

impl WorldModuleRegistry {
    /// Check the registry: a supported schema, a module count that matches,
    /// and modules with distinct ids, present files, a 64-character GLB
    /// digest, finite ordered bounds, distinct finite sockets, staging marks
    /// and camera anchors (at least one of each), a collision proxy and a
    /// provenance record. The first problem found is reported.
    pub fn validate(&self) -> (r: Result<(), String>)
        ensures
            match registry_problem(*self) {
                Some(msg) => r matches Err(e) && e@ == msg,
                None => r is Ok,
            },
    {
        if self.schema_version != 1 {
            let mut v = chars_of("unsupported world registry schema ");
            append_chars(&mut v, &decimal_chars(self.schema_version as u64));
            return Err(string_of(&v));
        }
        if self.module_count != self.modules.len() as u64 {
            let mut v = chars_of("module_count ");
            append_chars(&mut v, &decimal_chars(self.module_count));
            append_str(&mut v, " does not match ");
            append_chars(&mut v, &decimal_chars(self.modules.len() as u64));
            append_str(&mut v, " entries");
            return Err(string_of(&v));
        }
        let mut seen: Vec<String> = Vec::new();
        let mut i: usize = 0;
        assert(self.modules@.skip(0) =~= self.modules@);
        assert(Seq::new(seen@.len(), |k: int| seen@[k]@) =~= Seq::<Seq<char>>::empty());
        while i < self.modules.len()
            invariant
                i <= self.modules@.len(),
                seen@.len() == i,
                forall|k: int| 0 <= k < i ==> #[trigger] seen@[k]@ == self.modules@[k].module_id@,
                registry_problem(*self) == modules_problem(
                    self.modules@.skip(i as int),
                    Seq::new(seen@.len(), |k: int| seen@[k]@),
                ),
            decreases self.modules@.len() - i,
        {
            let ghost rest = self.modules@.skip(i as int);
            assert(rest[0] == self.modules@[i as int]);
            assert(rest.drop_first() =~= self.modules@.skip(i + 1));
            match check_module(&self.modules[i], &seen) {
                Err(e) => {
                    return Err(e);
                },
                Ok(()) => {},
            }
            let ghost old_seen = Seq::new(seen@.len(), |k: int| seen@[k]@);
            seen.push(string_of(&chars_of(self.modules[i].module_id.as_str())));
            assert(Seq::new(seen@.len(), |k: int| seen@[k]@) =~= old_seen.push(
                self.modules@[i as int].module_id@,
            ));
            i += 1;
        }
        Ok(())
    }
}

// ---------------------------------------------------------------------------
// Layout rules
// ---------------------------------------------------------------------------

/// The position of the module a module id stands for when the registry is
/// indexed by id: the last module with that id.
pub open spec fn module_for(ms: Seq<WorldModule>, id: Seq<char>) -> Option<int>
    decreases ms.len(),
{
    if ms.len() == 0 {
        None
    } else if ms.last().module_id@ == id {
        Some(ms.len() - 1)
    } else {
        module_for(ms.drop_last(), id)
    }
}

/// The module placed under `role`, given the roles placed so far.
pub open spec fn role_module(roles: Seq<(Seq<char>, int)>, role: Seq<char>) -> Option<int>
    decreases roles.len(),
{
    if roles.len() == 0 {
        None
    } else if roles[0].0 == role {
        Some(roles[0].1)
    } else {
        role_module(roles.drop_first(), role)
    }
}

/// Placing the instances `insts` after the roles `roles`: the roles with their
/// modules, or the first problem.
pub open spec fn place_instances(
    ms: Seq<WorldModule>,
    insts: Seq<ModuleInstance>,
    roles: Seq<(Seq<char>, int)>,
) -> Result<Seq<(Seq<char>, int)>, Seq<char>>
    decreases insts.len(),
{
    if insts.len() == 0 {
        Ok(roles)
    } else {
        let inst = insts[0];
        match module_for(ms, inst.module_id@) {
            None => Err(
                "instance "@ + inst.role@ + " references unknown module "@ + inst.module_id@,
            ),
            Some(m) => if ms[m].version != inst.module_version {
                Err("instance "@ + inst.role@ + " requests unavailable module version"@)
            } else if role_module(roles, inst.role@) is Some {
                Err("duplicate layout role "@ + inst.role@)
            } else if !inst.transform_finite {
                Err("instance "@ + inst.role@ + " has invalid transform"@)
            } else {
                place_instances(ms, insts.drop_first(), roles.push((inst.role@, m)))
            },
        }
    }
}

/// Module `m` has a socket named `socket`.
pub open spec fn has_socket(ms: Seq<WorldModule>, m: int, socket: Seq<char>) -> bool {
    exists|k: int| 0 <= k < ms[m].sockets@.len() && #[trigger] ms[m].sockets@[k].id@ == socket
}

/// The first problem among the connections `cs`.
pub open spec fn connections_problem(
    ms: Seq<WorldModule>,
    roles: Seq<(Seq<char>, int)>,
    cs: Seq<ModuleConnection>,
) -> Option<Seq<char>>
    decreases cs.len(),
{
    if cs.len() == 0 {
        None
    } else {
        let c = cs[0];
        match role_module(roles, c.from_role@) {
            None => Some("connection has unknown from role "@ + c.from_role@),
            Some(f) => match role_module(roles, c.to_role@) {
                None => Some("connection has unknown to role "@ + c.to_role@),
                Some(t) => if !has_socket(ms, f, c.from_socket@) {
                    Some(c.from_role@ + " lacks socket "@ + c.from_socket@)
                } else if !has_socket(ms, t, c.to_socket@) {
                    Some(c.to_role@ + " lacks socket "@ + c.to_socket@)
                } else {
                    connections_problem(ms, roles, cs.drop_first())
                },
            },
        }
    }
}

/// The first problem of a layout against a registry, if any.
pub open spec fn layout_problem(l: DemonstrationLayout, reg: WorldModuleRegistry) -> Option<
    Seq<char>,
> {
    if l.schema_version != 1 || l.registry_version != reg.registry_version {
        Some("layout and registry versions are incompatible"@)
    } else {
        match place_instances(reg.modules@, l.instances@, seq![]) {
            Err(e) => Some(e),
            Ok(roles) => connections_problem(reg.modules@, roles, l.connections@),
        }
    }
}

impl WorldModuleRegistry {
    /// The module registered under `id`; where several share the id, the last
    /// one, as indexing the registry by id keeps it.
    pub fn by_id(&self, id: &str) -> (r: Option<&WorldModule>)
        ensures
            match module_for(self.modules@, id@) {
                Some(k) => r matches Some(m) && *m == self.modules@[k],
                None => r is None,
            },
    {
        match find_module(&self.modules, id) {
            Some(k) => Some(&self.modules[k]),
            None => None,
        }
    }
}

fn find_module(ms: &Vec<WorldModule>, id: &str) -> (r: Option<usize>)
    ensures
        match r {
            Some(k) => k < ms@.len() && module_for(ms@, id@) == Some(k as int),
            None => module_for(ms@, id@) is None,
        },
{
    let mut i: usize = ms.len();
    assert(ms@.take(ms@.len() as int) =~= ms@);
    while i > 0
        invariant
            i <= ms@.len(),
            module_for(ms@, id@) == module_for(ms@.take(i as int), id@),
        decreases i,
    {
        let ghost pre = ms@.take(i as int);
        assert(pre.drop_last() =~= ms@.take(i - 1));
        assert(pre.last() == ms@[i - 1]);
        if str_eq(ms[i - 1].module_id.as_str(), id) {
            return Some(i - 1);
        }
        i -= 1;
    }
    None
}

fn find_role(roles: &Vec<(String, usize)>, role: &str) -> (r: Option<usize>)
    ensures
        r == match role_module(Seq::new(roles@.len(), |i: int| (roles@[i].0@, roles@[i].1 as int)), role@) {
            Some(m) => Some(m as usize),
            None => None::<usize>,
        },
{
    let ghost all = Seq::new(roles@.len(), |i: int| (roles@[i].0@, roles@[i].1 as int));
    let mut i: usize = 0;
    assert(all.skip(0) =~= all);
    while i < roles.len()
        invariant
            i <= roles@.len(),
            all == Seq::new(roles@.len(), |i: int| (roles@[i].0@, roles@[i].1 as int)),
            role_module(all, role@) == role_module(all.skip(i as int), role@),
        decreases roles@.len() - i,
    {
        assert(all.skip(i as int)[0] == all[i as int]);
        assert(all.skip(i as int).drop_first() =~= all.skip(i + 1));
        if str_eq(roles[i].0.as_str(), role) {
            return Some(roles[i].1);
        }
        i += 1;
    }
    None
}

fn module_has_socket(m: &WorldModule, socket: &str) -> (r: bool)
    ensures
        r == exists|k: int| 0 <= k < m.sockets@.len() && #[trigger] m.sockets@[k].id@ == socket@,
{
    let mut i: usize = 0;
    while i < m.sockets.len()
        invariant
            i <= m.sockets@.len(),
            forall|k: int| 0 <= k < i ==> m.sockets@[k].id@ != socket@,
        decreases m.sockets@.len() - i,
    {
        if str_eq(m.sockets[i].id.as_str(), socket) {
            return true;
        }
        i += 1;
    }
    false
}

impl DemonstrationLayout {
    /// Check a layout against a registry: matching versions; each instance
    /// names a registered module (the last one of its id) at the requested
    /// version, under a role of its own, with a finite transform; and each
    /// connection joins sockets that the modules of two placed roles have.
    /// The first problem found is reported.
    pub fn validate(&self, registry: &WorldModuleRegistry) -> (r: Result<(), String>)
        ensures
            match layout_problem(*self, *registry) {
                Some(msg) => r matches Err(e) && e@ == msg,
                None => r is Ok,
            },
    {
        if self.schema_version != 1 || self.registry_version != registry.registry_version {
            return Err(string_of(&chars_of("layout and registry versions are incompatible")));
        }
        let ms = &registry.modules;
        let mut roles: Vec<(String, usize)> = Vec::new();
        let mut i: usize = 0;
        assert(self.instances@.skip(0) =~= self.instances@);
        assert(Seq::new(roles@.len(), |k: int| (roles@[k].0@, roles@[k].1 as int)) =~= Seq::<
            (Seq<char>, int),
        >::empty());
        while i < self.instances.len()
            invariant
                i <= self.instances@.len(),
                self.schema_version == 1 && self.registry_version == registry.registry_version,
                ms@ == registry.modules@,
                forall|k: int| 0 <= k < roles@.len() ==> #[trigger] roles@[k].1 < ms@.len(),
                place_instances(ms@, self.instances@, seq![]) == place_instances(
                    ms@,
                    self.instances@.skip(i as int),
                    Seq::new(roles@.len(), |k: int| (roles@[k].0@, roles@[k].1 as int)),
                ),
            decreases self.instances@.len() - i,
        {
            let inst = &self.instances[i];
            let ghost rest = self.instances@.skip(i as int);
            assert(rest[0] == self.instances@[i as int]);
            assert(rest.drop_first() =~= self.instances@.skip(i + 1));
            let found = find_module(ms, inst.module_id.as_str());
            let m = match found {
                Some(m) => {
                    m
                },
                None => {
                    return Err(
                        msg4(
                            "instance ",
                            inst.role.as_str(),
                            " references unknown module ",
                            inst.module_id.as_str(),
                        ),
                    );
                },
            };
            if ms[m].version != inst.module_version {
                return Err(msg3("instance ", inst.role.as_str(), " requests unavailable module version"));
            }
            if find_role(&roles, inst.role.as_str()).is_some() {
                return Err(msg2("duplicate layout role ", inst.role.as_str()));
            }
            if !inst.transform_finite {
                return Err(msg3("instance ", inst.role.as_str(), " has invalid transform"));
            }
            let ghost before = Seq::new(roles@.len(), |k: int| (roles@[k].0@, roles@[k].1 as int));
            let ghost old_roles = roles@;
            roles.push((string_of(&chars_of(inst.role.as_str())), m));
            assert(Seq::new(roles@.len(), |k: int| (roles@[k].0@, roles@[k].1 as int))
                =~= before.push((inst.role@, m as int)));
            assert forall|k: int| 0 <= k < roles@.len() implies #[trigger] roles@[k].1 < ms@.len() by {
                if k < roles@.len() - 1 {
                    assert(roles@[k] == old_roles[k]);
                }
            }
            i += 1;
        }
        let ghost placed = Seq::new(roles@.len(), |k: int| (roles@[k].0@, roles@[k].1 as int));
        assert(self.instances@.skip(i as int) =~= Seq::<ModuleInstance>::empty());
        assert(layout_problem(*self, *registry) == connections_problem(
            ms@,
            placed,
            self.connections@,
        ));
        let mut j: usize = 0;
        assert(self.connections@.skip(0) =~= self.connections@);
        while j < self.connections.len()
            invariant
                j <= self.connections@.len(),
                self.schema_version == 1 && self.registry_version == registry.registry_version,
                ms@ == registry.modules@,
                forall|k: int| 0 <= k < roles@.len() ==> #[trigger] roles@[k].1 < ms@.len(),
                placed == Seq::new(roles@.len(), |k: int| (roles@[k].0@, roles@[k].1 as int)),
                layout_problem(*self, *registry) == connections_problem(
                    ms@,
                    placed,
                    self.connections@.skip(j as int),
                ),
            decreases self.connections@.len() - j,
        {
            let c = &self.connections[j];
            let ghost rest = self.connections@.skip(j as int);
            assert(rest[0] == self.connections@[j as int]);
            assert(rest.drop_first() =~= self.connections@.skip(j + 1));
            let f = match find_role(&roles, c.from_role.as_str()) {
                Some(f) => f,
                None => {
                    return Err(msg2("connection has unknown from role ", c.from_role.as_str()));
                },
            };
            let t = match find_role(&roles, c.to_role.as_str()) {
                Some(t) => t,
                None => {
                    return Err(msg2("connection has unknown to role ", c.to_role.as_str()));
                },
            };
            proof {
                lemma_role_module_in(placed, c.from_role@);
                lemma_role_module_in(placed, c.to_role@);
                let kf = choose|k: int| 0 <= k < placed.len() && #[trigger] placed[k].1 == f as int;
                assert(roles@[kf].1 < ms@.len());
                let kt = choose|k: int| 0 <= k < placed.len() && #[trigger] placed[k].1 == t as int;
                assert(roles@[kt].1 < ms@.len());
            }
            if !module_has_socket(&ms[f], c.from_socket.as_str()) {
                return Err(msg3(c.from_role.as_str(), " lacks socket ", c.from_socket.as_str()));
            }
            if !module_has_socket(&ms[t], c.to_socket.as_str()) {
                return Err(msg3(c.to_role.as_str(), " lacks socket ", c.to_socket.as_str()));
            }
            j += 1;
        }
        Ok(())
    }
}

proof fn lemma_role_module_in(roles: Seq<(Seq<char>, int)>, role: Seq<char>)
    ensures
        role_module(roles, role) matches Some(m) ==> exists|k: int|
            0 <= k < roles.len() && #[trigger] roles[k].1 == m,
    decreases roles.len(),
{
    if roles.len() > 0 && roles[0].0 != role {
        lemma_role_module_in(roles.drop_first(), role);
        if let Some(m) = role_module(roles.drop_first(), role) {
            let k = choose|k: int| 0 <= k < roles.drop_first().len() && roles.drop_first()[k].1 == m;
            assert(roles[k + 1].1 == m);
        }
    }
}

} // verus!
