use cellforge::catalog::Database;
use cellforge::model::{CellInstance, Connection, Euler, Real, Scene, Vector3};
use cellforge::references::{catalog_warnings, CatalogWarning};

fn instance(uuid: &str, cell_id: i64) -> CellInstance {
    CellInstance {
        uuid: uuid.to_string(),
        cell_id,
        position: Vector3(Real::zero(), Real::zero(), Real::zero()),
        rotation: Euler(Real::zero(), Real::zero(), Real::zero()),
        custom_label: None,
        group_id: None,
    }
}

fn wire(uuid: &str, material_id: Option<i64>) -> Connection {
    Connection {
        uuid: uuid.to_string(),
        connection_type: "busbar".to_string(),
        source_uuid: "a".to_string(),
        source_terminal: "positive".to_string(),
        target_uuid: "b".to_string(),
        target_terminal: "negative".to_string(),
        material_id,
        path: None,
    }
}

#[test]
fn missing_catalog_ids_are_warned_about() {
    let mut db = Database::new();
    db.seed_data();
    let s = Scene {
        cells: vec![instance("a", 3), instance("b", 42)],
        connections: vec![wire("w1", Some(2)), wire("w2", Some(7)), wire("w3", None)],
        components: vec![],
        groups: vec![],
    };
    assert_eq!(
        catalog_warnings(&s, &db),
        vec![
            CatalogWarning::MissingCell { instance: "b".to_string(), cell_id: 42 },
            CatalogWarning::MissingMaterial { connection: "w2".to_string(), material_id: 7 },
        ]
    );
    assert!(db.has_cell(3));
    assert!(!db.has_material(7));
}
