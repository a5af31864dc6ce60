use cellforge::model::{CellInstance, Component, Connection, Euler, Group, Real, Scene, Vector3};
use cellforge::scene::{validate_scene, Violation};

fn origin() -> Vector3 {
    Vector3(Real::zero(), Real::zero(), Real::zero())
}

fn cell(uuid: &str) -> CellInstance {
    CellInstance {
        uuid: uuid.to_string(),
        cell_id: 1,
        position: origin(),
        rotation: Euler(Real::zero(), Real::zero(), Real::zero()),
        custom_label: None,
        group_id: None,
    }
}

fn component(uuid: &str) -> Component {
    Component {
        uuid: uuid.to_string(),
        component_type: "bms".to_string(),
        reference_id: Some(1),
        position: origin(),
        rotation: Euler(Real::zero(), Real::zero(), Real::zero()),
        scale: Vector3(Real::one(), Real::one(), Real::one()),
        custom_mesh_path: None,
    }
}

fn link(uuid: &str, from: &str, to: &str) -> Connection {
    Connection {
        uuid: uuid.to_string(),
        connection_type: "series".to_string(),
        source_uuid: from.to_string(),
        source_terminal: "positive".to_string(),
        target_uuid: to.to_string(),
        target_terminal: "negative".to_string(),
        material_id: None,
        path: Some(vec![origin(), origin()]),
    }
}

fn group(uuid: &str, members: &[&str]) -> Group {
    Group {
        uuid: uuid.to_string(),
        name: uuid.to_uppercase(),
        member_uuids: members.iter().map(|m| m.to_string()).collect(),
        color: None,
        locked: false,
        visible: true,
    }
}

fn scene(connections: Vec<Connection>, groups: Vec<Group>) -> Scene {
    Scene {
        cells: vec![cell("c1"), cell("c2")],
        connections,
        components: vec![component("b1")],
        groups,
    }
}

#[test]
fn sound_scene_has_no_violations() {
    let s = scene(
        vec![link("k1", "c1", "c2"), link("k2", "c2", "b1")],
        vec![group("g1", &["c1", "g2"]), group("g2", &["b1"])],
    );
    assert!(validate_scene(&s).is_empty());
}

#[test]
fn dangling_source_is_reported_once() {
    let s = scene(vec![link("k1", "ghost", "c2")], vec![]);
    assert_eq!(
        validate_scene(&s),
        vec![Violation::DanglingSource { connection: "k1".to_string(), uuid: "ghost".to_string() }]
    );
}

#[test]
fn dangling_target_and_member_are_reported() {
    let s = scene(vec![link("k1", "c1", "nowhere")], vec![group("g1", &["c2", "lost"])]);
    assert_eq!(
        validate_scene(&s),
        vec![
            Violation::DanglingTarget { connection: "k1".to_string(), uuid: "nowhere".to_string() },
            Violation::DanglingMember { group: "g1".to_string(), uuid: "lost".to_string() },
        ]
    );
}

#[test]
fn group_cycle_names_every_group_on_it() {
    let s = scene(
        vec![],
        vec![group("g1", &["g2"]), group("g2", &["g3"]), group("g3", &["g1", "c1"]), group("g4", &["g1"])],
    );
    assert_eq!(
        validate_scene(&s),
        vec![Violation::GroupCycle {
            group: "g1".to_string(),
            members: vec!["g1".to_string(), "g2".to_string(), "g3".to_string()],
        }]
    );
}

#[test]
fn group_containing_itself_is_a_cycle() {
    let s = scene(vec![], vec![group("g1", &["g1"])]);
    assert_eq!(
        validate_scene(&s),
        vec![Violation::GroupCycle { group: "g1".to_string(), members: vec!["g1".to_string()] }]
    );
}

#[test]
fn separate_cycles_are_reported_separately() {
    let s = scene(
        vec![],
        vec![group("a", &["b"]), group("x", &["y"]), group("b", &["a"]), group("y", &["x"])],
    );
    assert_eq!(
        validate_scene(&s),
        vec![
            Violation::GroupCycle { group: "a".to_string(), members: vec!["a".to_string(), "b".to_string()] },
            Violation::GroupCycle { group: "x".to_string(), members: vec!["x".to_string(), "y".to_string()] },
        ]
    );
}

#[test]
fn repeated_uuids_are_reported() {
    let s = scene(vec![link("c2", "c1", "b1")], vec![group("b1", &["c1"])]);
    assert_eq!(
        validate_scene(&s),
        vec![
            Violation::DuplicateUuid { uuid: "c2".to_string() },
            Violation::DuplicateUuid { uuid: "b1".to_string() },
        ]
    );
}
