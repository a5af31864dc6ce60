use cellforge::export::{Exporter, STLExportOptions, ThreeMFExportOptions};
use cellforge::model::Real;

fn stl(selection: &str, file_name: &str) -> STLExportOptions {
    STLExportOptions {
        selection: selection.to_string(),
        merge_geometries: true,
        apply_transforms: true,
        scale: Real::one(),
        file_name: file_name.to_string(),
    }
}

fn three_mf(selection: &str, file_name: &str) -> ThreeMFExportOptions {
    ThreeMFExportOptions {
        selection: selection.to_string(),
        include_colors: true,
        include_materials: false,
        separate_objects: true,
        build_plate_origin: false,
        file_name: file_name.to_string(),
    }
}

#[test]
fn stl_selections_are_checked() {
    let e = Exporter::new();
    for s in ["all", "selected", "holders-only", "cells-only"] {
        assert_eq!(e.validate_stl_options(&stl(s, "pack.stl")), Ok(()));
    }
    assert_eq!(
        e.validate_stl_options(&stl("everything", "pack.stl")),
        Err("Invalid selection option".to_string())
    );
    assert_eq!(
        e.validate_stl_options(&stl("all", "")),
        Err("File name cannot be empty".to_string())
    );
    assert_eq!(
        e.validate_stl_options(&stl("bogus", "")),
        Err("File name cannot be empty".to_string())
    );
}

#[test]
fn three_mf_selections_are_checked() {
    let e = Exporter::new();
    assert_eq!(e.validate_three_mf_options(&three_mf("all", "p.3mf")), Ok(()));
    assert_eq!(e.validate_three_mf_options(&three_mf("selected", "p.3mf")), Ok(()));
    assert_eq!(
        e.validate_three_mf_options(&three_mf("cells-only", "p.3mf")),
        Err("Invalid selection option".to_string())
    );
    assert_eq!(
        e.validate_three_mf_options(&three_mf("all", "")),
        Err("File name cannot be empty".to_string())
    );
}

#[test]
fn format_tables() {
    let e = Exporter::new();
    assert_eq!(e.get_supported_formats(), vec!["stl".to_string(), "3mf".to_string()]);
    let ext = e.get_format_extensions();
    assert_eq!(ext.len(), 2);
    assert_eq!(ext.get("stl").map(|s| s.as_str()), Some("stl"));
    assert_eq!(ext.get("3mf").map(|s| s.as_str()), Some("3mf"));
}
