use backlot::world_modules::{
    DemonstrationLayout, ModuleConnection, ModuleInstance, SemanticPoint, WorldModule,
    WorldModuleRegistry,
};

fn point(id: &str) -> SemanticPoint {
    SemanticPoint { id: id.into(), node: format!("{id}_node"), finite: true }
}

fn module(id: &str, version: u32) -> WorldModule {
    WorldModule {
        module_id: id.into(),
        category: "room".into(),
        version,
        asset: format!("assets/{id}.glb"),
        source_blend: format!("blend/{id}.blend"),
        preview: format!("previews/{id}.png"),
        asset_exists: true,
        source_blend_exists: true,
        preview_exists: true,
        glb_sha256: "a".repeat(64),
        bounds_finite: true,
        bounds_ordered: true,
        sockets: vec![point("door"), point("window")],
        staging_marks: vec![point("center")],
        camera_anchors: vec![point("wide")],
        interactions: vec![point("panel")],
        cutaway_groups: vec![],
        collision_groups: vec![point("walls")],
        tags: vec!["interior".into()],
        has_provenance: true,
    }
}

fn registry(modules: Vec<WorldModule>) -> WorldModuleRegistry {
    WorldModuleRegistry {
        schema_version: 1,
        registry_version: 3,
        coordinate_system: "y_up".into(),
        module_count: modules.len() as u64,
        modules,
    }
}

#[test]
fn registry_checks_report_the_first_problem() {
    assert_eq!(registry(vec![module("lobby", 1), module("store", 1)]).validate(), Ok(()));
    let mut r = registry(vec![module("lobby", 1)]);
    r.schema_version = 2;
    assert_eq!(r.validate(), Err("unsupported world registry schema 2".to_string()));
    let mut r = registry(vec![module("lobby", 1)]);
    r.module_count = 5;
    assert_eq!(r.validate(), Err("module_count 5 does not match 1 entries".to_string()));
    let r = registry(vec![module("lobby", 1), module("lobby", 2)]);
    assert_eq!(r.validate(), Err("duplicate module id lobby".to_string()));
    let mut m = module("lobby", 1);
    m.preview_exists = false;
    assert_eq!(
        registry(vec![m]).validate(),
        Err("module lobby references missing file previews/lobby.png".to_string())
    );
    let mut m = module("lobby", 1);
    m.glb_sha256 = "abc".into();
    assert_eq!(registry(vec![m]).validate(), Err("module lobby has invalid GLB hash".to_string()));
    let mut m = module("lobby", 1);
    m.sockets.push(point("door"));
    assert_eq!(registry(vec![m]).validate(), Err("module lobby has duplicate socket door".to_string()));
    let mut m = module("lobby", 1);
    m.camera_anchors[0].finite = false;
    assert_eq!(
        registry(vec![m]).validate(),
        Err("module lobby has non-finite camera anchor wide".to_string())
    );
    let mut m = module("lobby", 1);
    m.staging_marks.clear();
    assert_eq!(registry(vec![m]).validate(), Err("module lobby lacks production semantics".to_string()));
    let mut m = module("lobby", 1);
    m.collision_groups.clear();
    assert_eq!(registry(vec![m]).validate(), Err("module lobby lacks a collision proxy".to_string()));
    let mut m = module("lobby", 1);
    m.has_provenance = false;
    assert_eq!(registry(vec![m]).validate(), Err("module lobby lacks provenance".to_string()));
}

fn instance(role: &str, module_id: &str, version: u32) -> ModuleInstance {
    ModuleInstance {
        instance_id: format!("{role}_1"),
        role: role.into(),
        module_id: module_id.into(),
        module_version: version,
        category: "room".into(),
        transform_finite: true,
    }
}

fn connect(from: &str, fs: &str, to: &str, ts: &str) -> ModuleConnection {
    ModuleConnection {
        from_role: from.into(),
        from_socket: fs.into(),
        to_role: to.into(),
        to_socket: ts.into(),
    }
}

fn layout(instances: Vec<ModuleInstance>, connections: Vec<ModuleConnection>) -> DemonstrationLayout {
    DemonstrationLayout {
        schema_version: 1,
        world_seed: 7,
        registry_version: 3,
        layout_algorithm: "fixed".into(),
        layout_fingerprint: "f".into(),
        instances,
        connections,
        notes: String::new(),
    }
}

#[test]
fn layouts_resolve_modules_versions_and_sockets() {
    let reg = registry(vec![module("lobby", 1), module("store", 2)]);
    let ok = layout(
        vec![instance("entry", "lobby", 1), instance("shop", "store", 2)],
        vec![connect("entry", "door", "shop", "window")],
    );
    assert_eq!(ok.validate(&reg), Ok(()));
    let mut bad = layout(vec![], vec![]);
    bad.registry_version = 4;
    assert_eq!(bad.validate(&reg), Err("layout and registry versions are incompatible".to_string()));
    let bad = layout(vec![instance("entry", "attic", 1)], vec![]);
    assert_eq!(bad.validate(&reg), Err("instance entry references unknown module attic".to_string()));
    let bad = layout(vec![instance("entry", "lobby", 9)], vec![]);
    assert_eq!(bad.validate(&reg), Err("instance entry requests unavailable module version".to_string()));
    let bad = layout(vec![instance("entry", "lobby", 1), instance("entry", "store", 2)], vec![]);
    assert_eq!(bad.validate(&reg), Err("duplicate layout role entry".to_string()));
    let mut inst = instance("entry", "lobby", 1);
    inst.transform_finite = false;
    assert_eq!(layout(vec![inst], vec![]).validate(&reg), Err("instance entry has invalid transform".to_string()));
    let bad = layout(vec![instance("entry", "lobby", 1)], vec![connect("entry", "door", "shop", "door")]);
    assert_eq!(bad.validate(&reg), Err("connection has unknown to role shop".to_string()));
    let bad = layout(
        vec![instance("entry", "lobby", 1), instance("shop", "store", 2)],
        vec![connect("entry", "chimney", "shop", "door")],
    );
    assert_eq!(bad.validate(&reg), Err("entry lacks socket chimney".to_string()));
}

#[test]
fn registry_lookup_by_id_keeps_the_last_module_with_that_id() {
    let reg = registry(vec![module("lobby", 1), module("elevator", 2), module("lobby", 4)]);
    assert_eq!(reg.by_id("lobby").map(|m| m.version), Some(4));
    assert_eq!(reg.by_id("elevator").map(|m| m.version), Some(2));
    assert!(reg.by_id("roof").is_none());
}
