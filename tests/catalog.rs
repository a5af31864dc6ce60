use cellforge::catalog::{Bms, Cell, Database, Material, Shape};
use cellforge::model::Real;
use cellforge::seed::baseline_cell;

fn r(v: f64) -> Real {
    Real::from_bits(v.to_bits())
}

fn cell(id: i64, manufacturer: &str, model: &str, form_factor: &str) -> Cell {
    Cell {
        id,
        manufacturer: manufacturer.to_string(),
        model: model.to_string(),
        form_factor: form_factor.to_string(),
        chemistry: "NMC".to_string(),
        nominal_voltage: r(3.6),
        max_voltage: r(4.2),
        min_voltage: r(2.5),
        capacity_mah: 3000,
        max_discharge_a: r(15.0),
        max_charge_a: r(4.0),
        internal_res_mohm: None,
        weight_g: r(48.0),
        diameter_mm: Some(r(18.3)),
        length_mm: r(65.2),
        width_mm: None,
        height_mm: None,
        datasheet_url: None,
        thermal_limit_c: Some(r(60.0)),
        cycle_life: None,
    }
}

fn models(cells: &[Cell]) -> Vec<String> {
    cells.iter().map(|c| c.model.clone()).collect()
}

fn seeded() -> Database {
    let mut db = Database::new();
    db.seed_data();
    db
}

#[test]
fn seeding_fills_empty_catalog_in_key_order() {
    let db = seeded();
    assert_eq!(db.cell_count(), 5);
    assert_eq!(models(&db.get_cells(None)), vec!["40P", "HG2", "P42A", "30Q", "40T"]);
    let mats = db.get_materials();
    let names: Vec<String> = mats.iter().map(|m| m.name.clone()).collect();
    assert_eq!(names, vec!["Copper Busbar 2mm", "Pure Nickel 0.15x8mm", "Pure Nickel 0.2x10mm"]);
}

#[test]
fn seeding_twice_changes_nothing() {
    let mut db = seeded();
    let before = db.get_cells(None);
    let mats_before = db.get_materials();
    db.seed_data();
    assert_eq!(db.get_cells(None), before);
    assert_eq!(db.get_materials(), mats_before);
}

#[test]
fn seeding_a_populated_catalog_is_a_no_op() {
    let mut db = Database::new();
    db.insert_cell(cell(9, "Sony", "VTC6", "18650")).unwrap();
    db.seed_data();
    assert_eq!(models(&db.get_cells(None)), vec!["VTC6"]);
    assert!(db.get_materials().is_empty());
}

#[test]
fn search_molicel_finds_only_p42a() {
    let db = seeded();
    let found = db.get_cells(Some("Molicel"));
    assert_eq!(found.len(), 1);
    assert_eq!(found[0].model, "P42A");
    assert_eq!(found[0], baseline_cell(2));
}

#[test]
fn search_is_case_insensitive_and_by_token_prefix() {
    let db = seeded();
    assert_eq!(models(&db.get_cells(Some("samsung"))), vec!["30Q", "40T"]);
    assert_eq!(models(&db.get_cells(Some("217"))), vec!["40P", "P42A", "40T"]);
    assert_eq!(models(&db.get_cells(Some("samsung 18650"))), vec!["30Q"]);
    assert!(db.get_cells(Some("olicel")).is_empty());
}

#[test]
fn search_without_tokens_matches_nothing() {
    let db = seeded();
    assert!(db.get_cells(Some("")).is_empty());
    assert!(db.get_cells(Some(" - ")).is_empty());
    assert!(db.get_cells(Some("Tesla")).is_empty());
}

#[test]
fn search_follows_insert_update_and_delete() {
    let mut db = seeded();
    db.insert_cell(cell(6, "Sony", "VTC6", "18650")).unwrap();
    assert_eq!(models(&db.get_cells(Some("sony"))), vec!["VTC6"]);
    db.update_cell(cell(6, "Murata", "VTC6", "18650")).unwrap();
    assert!(db.get_cells(Some("sony")).is_empty());
    assert_eq!(models(&db.get_cells(Some("murata"))), vec!["VTC6"]);
    assert!(db.delete_cell(6));
    assert!(db.get_cells(Some("murata")).is_empty());
    assert!(!db.delete_cell(6));
    assert_eq!(db.cell_count(), 5);
}

#[test]
fn duplicate_key_is_rejected() {
    let mut db = seeded();
    assert!(db.insert_cell(cell(7, "Samsung", "30Q", "18650")).is_err());
    assert_eq!(db.cell_count(), 5);
}

#[test]
fn duplicate_id_and_bad_enum_are_rejected() {
    let mut db = seeded();
    assert!(db.insert_cell(cell(1, "Sony", "VTC6", "18650")).is_err());
    assert!(db.insert_cell(cell(8, "Sony", "VTC6", "AA")).is_err());
    assert!(db.update_cell(cell(42, "Sony", "VTC6", "18650")).is_err());
    assert!(db.update_cell(cell(1, "Samsung", "40T", "18650")).is_err());
    assert_eq!(db.cell_count(), 5);
}

#[test]
fn get_cell_by_id_finds_or_returns_none() {
    let db = seeded();
    let c = db.get_cell_by_id(4).unwrap();
    assert_eq!(c.manufacturer, "LG");
    assert_eq!(c.max_discharge_a.bits, 20.0f64.to_bits());
    assert_eq!(c.thermal_limit_c, Some(r(60.0)));
    assert!(db.get_cell_by_id(99).is_none());
}

#[test]
fn shapes_are_listed_by_name_and_checked() {
    let mut db = Database::new();
    let shape = |id: i64, name: &str, category: &str| Shape {
        id,
        name: name.to_string(),
        category: category.to_string(),
        file_path: format!("shapes/{}.stl", name),
        default_scale: "1,1,1".to_string(),
    };
    db.insert_shape(shape(1, "vent cap", "vent")).unwrap();
    db.insert_shape(shape(2, "box", "enclosure")).unwrap();
    assert!(db.insert_shape(shape(3, "box", "bracket")).is_err());
    assert!(db.insert_shape(shape(4, "clip", "widget")).is_err());
    let names: Vec<String> = db.get_shapes().iter().map(|s| s.name.clone()).collect();
    assert_eq!(names, vec!["box", "vent cap"]);
}

#[test]
fn materials_with_same_name_and_kind_are_rejected() {
    let mut db = Database::new();
    let m = Material {
        id: 1,
        name: "Strip".to_string(),
        material_type: "wire".to_string(),
        thickness_mm: None,
        width_mm: None,
        resistance_mohm_per_m: r(1.0),
        max_current_a: r(5.0),
    };
    db.insert_material(m.clone()).unwrap();
    assert!(db.insert_material(Material { id: 2, ..m.clone() }).is_err());
    assert!(db.insert_material(Material { id: 3, material_type: "rope".to_string(), ..m.clone() }).is_err());
    db.insert_material(Material { id: 4, material_type: "busbar".to_string(), ..m }).unwrap();
    assert_eq!(db.get_materials().len(), 2);
}

#[test]
fn search_splits_tokens_on_non_alphanumeric_characters() {
    let db = seeded();
    assert_eq!(models(&db.get_cells(Some("P42A\u{2014}"))), vec!["P42A"]);
    assert_eq!(models(&db.get_cells(Some("\u{00ab}molicel\u{00bb}"))), vec!["P42A"]);
    assert_eq!(models(&db.get_cells(Some("lg/hg2"))), vec!["HG2"]);
}

#[test]
fn non_ascii_letters_stay_inside_tokens() {
    let mut db = Database::new();
    db.insert_cell(cell(1, "M\u{00fc}ller", "X1", "pouch")).unwrap();
    assert_eq!(models(&db.get_cells(Some("m\u{00fc}l"))), vec!["X1"]);
    assert!(db.get_cells(Some("ller")).is_empty());
}

#[test]
fn seeding_adds_only_free_baseline_materials() {
    let mut db = Database::new();
    let taken = Material {
        id: 2,
        name: "Own strip".to_string(),
        material_type: "wire".to_string(),
        thickness_mm: None,
        width_mm: None,
        resistance_mohm_per_m: r(1.0),
        max_current_a: r(5.0),
    };
    let same_key = Material {
        id: 10,
        name: "Copper Busbar 2mm".to_string(),
        material_type: "busbar".to_string(),
        ..taken.clone()
    };
    db.insert_material(taken.clone()).unwrap();
    db.insert_material(same_key.clone()).unwrap();
    db.seed_data();
    let mats = db.get_materials();
    assert_eq!(mats.len(), 3);
    assert!(mats.contains(&taken));
    assert!(mats.contains(&same_key));
    assert!(mats.iter().any(|m| m.id == 1 && m.name == "Pure Nickel 0.15x8mm"));
    assert_eq!(db.cell_count(), 5);
}

#[test]
fn bms_keys_are_unique() {
    let mut db = Database::new();
    let board = |id: i64, model: &str| Bms {
        id,
        manufacturer: "Daly".to_string(),
        model: model.to_string(),
        series_count: 13,
        max_current_a: r(40.0),
        balance_current_ma: Some(r(30.0)),
        length_mm: r(100.0),
        width_mm: r(60.0),
        height_mm: r(12.0),
        pinout_json: None,
    };
    db.insert_bms(board(1, "13S 40A")).unwrap();
    db.insert_bms(board(2, "10S 30A")).unwrap();
    assert!(db.insert_bms(board(3, "13S 40A")).is_err());
    assert!(db.insert_bms(board(2, "16S 60A")).is_err());
    let models: Vec<String> = db.get_bms().iter().map(|b| b.model.clone()).collect();
    assert_eq!(models, vec!["10S 30A", "13S 40A"]);
}
