use cellforge::archive::{check_before_save, check_project, check_version, new_project_at, pack, unpack, ArchiveError, Filesystem};
use cellforge::model::{CellInstance, Connection, Euler, Real, Vector3};
use cellforge::scene::Violation;

#[test]
fn new_project_has_the_documented_defaults() {
    let p = new_project_at("Pack A".to_string(), "2024-01-01T00:00:00+00:00".to_string());
    assert_eq!(p.version, "1.0.0");
    assert_eq!(p.metadata.name, "Pack A");
    assert_eq!(p.metadata.created, "2024-01-01T00:00:00+00:00");
    assert_eq!(p.metadata.modified, p.metadata.created);
    assert_eq!(p.metadata.author, None);
    assert!(p.scene.cells.is_empty());
    assert!(p.scene.connections.is_empty());
    assert!(p.scene.components.is_empty());
    assert!(p.scene.groups.is_empty());
    assert_eq!(p.settings.units, "mm");
    assert_eq!(f64::from_bits(p.settings.grid_size.bits), 1.0);
    assert!(p.settings.snap_enabled);
    assert!(!p.settings.hex_packing_enabled);
    assert_eq!(f64::from_bits(p.camera.position.0.bits), 100.0);
    assert_eq!(f64::from_bits(p.camera.target.2.bits), 0.0);
    assert_eq!(f64::from_bits(p.camera.zoom.bits), 1.0);
    assert!(check_project(&p).is_ok());
}

#[test]
fn create_new_project_stamps_both_times_alike() {
    let fs = Filesystem::new("/tmp/data".to_string());
    let p = fs.create_new_project("Pack A".to_string());
    assert_eq!(p.metadata.name, "Pack A");
    assert_eq!(p.metadata.created, p.metadata.modified);
    assert!(p.metadata.created.len() >= 20);
    assert!(p.metadata.created.ends_with("+00:00"));
    assert_eq!(fs.autosave_file_name(), "autosave.cellforge");
}

#[test]
fn packed_text_unpacks_to_itself() {
    let text = br#"{"version":"1.0.0","metadata":{"name":"Pack A"}}"#.to_vec();
    let blob = pack(&text).unwrap();
    assert_ne!(blob, text);
    assert_eq!(&blob[..2], &[0x1f, 0x8b]);
    assert_eq!(unpack(&blob).unwrap(), text);
    let empty = pack(&Vec::new()).unwrap();
    assert_eq!(unpack(&empty).unwrap(), Vec::<u8>::new());
}

#[test]
fn foreign_bytes_fail_to_decompress() {
    match unpack(&b"not a project".to_vec()) {
        Err(ArchiveError::Decompress(_)) => {}
        other => panic!("unexpected: {:?}", other),
    }
}

#[test]
fn unknown_version_is_unsupported() {
    assert!(check_version(&"1.0.0".to_string()).is_ok());
    assert_eq!(
        check_version(&"2.0.0".to_string()),
        Err(ArchiveError::UnsupportedVersion("2.0.0".to_string()))
    );
    let mut p = new_project_at("P".to_string(), "t".to_string());
    p.version = "9.9".to_string();
    assert_eq!(check_project(&p), Err(ArchiveError::UnsupportedVersion("9.9".to_string())));
    assert_eq!(
        check_project(&p).unwrap_err().message(),
        "Unsupported project version: 9.9"
    );
}

#[test]
fn broken_scene_is_refused_with_every_violation() {
    let mut p = new_project_at("P".to_string(), "t".to_string());
    let zero = Vector3(Real::zero(), Real::zero(), Real::zero());
    p.scene.cells.push(CellInstance {
        uuid: "c1".to_string(),
        cell_id: 3,
        position: zero,
        rotation: Euler(Real::zero(), Real::zero(), Real::zero()),
        custom_label: Some("first".to_string()),
        group_id: None,
    });
    p.scene.connections.push(Connection {
        uuid: "k1".to_string(),
        connection_type: "parallel".to_string(),
        source_uuid: "x".to_string(),
        source_terminal: "positive".to_string(),
        target_uuid: "y".to_string(),
        target_terminal: "positive".to_string(),
        material_id: Some(2),
        path: None,
    });
    assert_eq!(
        check_project(&p),
        Err(ArchiveError::Validation(vec![
            Violation::DanglingSource { connection: "k1".to_string(), uuid: "x".to_string() },
            Violation::DanglingTarget { connection: "k1".to_string(), uuid: "y".to_string() },
        ]))
    );
}

#[test]
fn save_check_reports_violations_whatever_the_version() {
    let mut p = new_project_at("P".to_string(), "t".to_string());
    p.version = "2.0.0".to_string();
    assert!(check_before_save(&p).is_ok());
    p.scene.groups.push(cellforge::model::Group {
        uuid: "g".to_string(),
        name: "G".to_string(),
        member_uuids: vec!["missing".to_string()],
        color: None,
        locked: false,
        visible: true,
    });
    assert_eq!(
        check_before_save(&p),
        Err(ArchiveError::Validation(vec![Violation::DanglingMember {
            group: "g".to_string(),
            uuid: "missing".to_string(),
        }]))
    );
}
