use vstd::prelude::*;

use crate::catalog::{Cell, Material};
use crate::model::Real;
use crate::text::owned;

verus! {

/// The number of cells in the baseline library.
pub const BASELINE_CELLS: usize = 5;

/// The number of materials in the baseline library.
pub const BASELINE_MATERIALS: usize = 3;

/// `c` is row `k` of the baseline cell library.
pub open spec fn is_baseline_cell(c: Cell, k: int) -> bool {
    if k == 0 {
        &&& c.id == 1
        &&& c.manufacturer@ == "Samsung"@
        &&& c.model@ == "30Q"@
        &&& c.form_factor@ == "18650"@
        &&& c.chemistry@ == "NMC"@
        &&& c.nominal_voltage.bits == 0x400C_CCCC_CCCC_CCCD
        &&& c.max_voltage.bits == 0x4010_CCCC_CCCC_CCCD
        &&& c.min_voltage.bits == 0x4004_0000_0000_0000
        &&& c.capacity_mah == 3000
        &&& c.max_discharge_a.bits == 0x402E_0000_0000_0000
        &&& c.max_charge_a.bits == 0x4010_0000_0000_0000
        &&& c.internal_res_mohm == Some(Real { bits: 0x4034_0000_0000_0000 })
        &&& c.weight_g.bits == 0x4048_0000_0000_0000
        &&& c.diameter_mm == Some(Real { bits: 0x4032_4CCC_CCCC_CCCD })
        &&& c.length_mm.bits == 0x4050_4CCC_CCCC_CCCD
        &&& c.width_mm is None
        &&& c.height_mm is None
        &&& c.datasheet_url is None
        &&& c.thermal_limit_c == Some(Real { bits: 0x404E_0000_0000_0000 })
        &&& c.cycle_life == Some(250i32)
    } else if k == 1 {
        &&& c.id == 2
        &&& c.manufacturer@ == "Samsung"@
        &&& c.model@ == "40T"@
        &&& c.form_factor@ == "21700"@
        &&& c.chemistry@ == "NMC"@
        &&& c.nominal_voltage.bits == 0x400C_CCCC_CCCC_CCCD
        &&& c.max_voltage.bits == 0x4010_CCCC_CCCC_CCCD
        &&& c.min_voltage.bits == 0x4004_0000_0000_0000
        &&& c.capacity_mah == 4000
        &&& c.max_discharge_a.bits == 0x4041_8000_0000_0000
        &&& c.max_charge_a.bits == 0x4018_0000_0000_0000
        &&& c.internal_res_mohm == Some(Real { bits: 0x4028_0000_0000_0000 })
        &&& c.weight_g.bits == 0x4051_8000_0000_0000
        &&& c.diameter_mm == Some(Real { bits: 0x4035_1999_9999_999A })
        &&& c.length_mm.bits == 0x4051_8CCC_CCCC_CCCD
        &&& c.width_mm is None
        &&& c.height_mm is None
        &&& c.datasheet_url is None
        &&& c.thermal_limit_c == Some(Real { bits: 0x404E_0000_0000_0000 })
        &&& c.cycle_life == Some(300i32)
    } else if k == 2 {
        &&& c.id == 3
        &&& c.manufacturer@ == "Molicel"@
        &&& c.model@ == "P42A"@
        &&& c.form_factor@ == "21700"@
        &&& c.chemistry@ == "NMC"@
        &&& c.nominal_voltage.bits == 0x400C_CCCC_CCCC_CCCD
        &&& c.max_voltage.bits == 0x4010_CCCC_CCCC_CCCD
        &&& c.min_voltage.bits == 0x4004_0000_0000_0000
        &&& c.capacity_mah == 4200
        &&& c.max_discharge_a.bits == 0x4046_8000_0000_0000
        &&& c.max_charge_a.bits == 0x4018_0000_0000_0000
        &&& c.internal_res_mohm == Some(Real { bits: 0x4024_0000_0000_0000 })
        &&& c.weight_g.bits == 0x4051_8000_0000_0000
        &&& c.diameter_mm == Some(Real { bits: 0x4035_1999_9999_999A })
        &&& c.length_mm.bits == 0x4051_8CCC_CCCC_CCCD
        &&& c.width_mm is None
        &&& c.height_mm is None
        &&& c.datasheet_url is None
        &&& c.thermal_limit_c == Some(Real { bits: 0x404E_0000_0000_0000 })
        &&& c.cycle_life == Some(800i32)
    } else if k == 3 {
        &&& c.id == 4
        &&& c.manufacturer@ == "LG"@
        &&& c.model@ == "HG2"@
        &&& c.form_factor@ == "18650"@
        &&& c.chemistry@ == "NMC"@
        &&& c.nominal_voltage.bits == 0x400C_CCCC_CCCC_CCCD
        &&& c.max_voltage.bits == 0x4010_CCCC_CCCC_CCCD
        &&& c.min_voltage.bits == 0x4004_0000_0000_0000
        &&& c.capacity_mah == 3000
        &&& c.max_discharge_a.bits == 0x4034_0000_0000_0000
        &&& c.max_charge_a.bits == 0x4010_0000_0000_0000
        &&& c.internal_res_mohm == Some(Real { bits: 0x4032_0000_0000_0000 })
        &&& c.weight_g.bits == 0x4048_0000_0000_0000
        &&& c.diameter_mm == Some(Real { bits: 0x4032_4CCC_CCCC_CCCD })
        &&& c.length_mm.bits == 0x4050_4CCC_CCCC_CCCD
        &&& c.width_mm is None
        &&& c.height_mm is None
        &&& c.datasheet_url is None
        &&& c.thermal_limit_c == Some(Real { bits: 0x404E_0000_0000_0000 })
        &&& c.cycle_life == Some(300i32)
    } else if k == 4 {
        &&& c.id == 5
        &&& c.manufacturer@ == "EVE"@
        &&& c.model@ == "40P"@
        &&& c.form_factor@ == "21700"@
        &&& c.chemistry@ == "NMC"@
        &&& c.nominal_voltage.bits == 0x400C_CCCC_CCCC_CCCD
        &&& c.max_voltage.bits == 0x4010_CCCC_CCCC_CCCD
        &&& c.min_voltage.bits == 0x4004_0000_0000_0000
        &&& c.capacity_mah == 4000
        &&& c.max_discharge_a.bits == 0x4024_0000_0000_0000
        &&& c.max_charge_a.bits == 0x4010_0000_0000_0000
        &&& c.internal_res_mohm == Some(Real { bits: 0x402E_0000_0000_0000 })
        &&& c.weight_g.bits == 0x4051_0000_0000_0000
        &&& c.diameter_mm == Some(Real { bits: 0x4035_1999_9999_999A })
        &&& c.length_mm.bits == 0x4051_8CCC_CCCC_CCCD
        &&& c.width_mm is None
        &&& c.height_mm is None
        &&& c.datasheet_url is None
        &&& c.thermal_limit_c == Some(Real { bits: 0x404E_0000_0000_0000 })
        &&& c.cycle_life == Some(1000i32)
    } else {
        false
    }
}

/// The id of row `k` of the baseline materials.
pub open spec fn baseline_material_id(k: int) -> i64 {
    (k + 1) as i64
}

/// The (name, type) of row `k` of the baseline materials.
pub open spec fn baseline_material_key(k: int) -> (Seq<char>, Seq<char>) {
    if k == 0 {
        ("Pure Nickel 0.15x8mm"@, "nickel_strip"@)
    } else if k == 1 {
        ("Pure Nickel 0.2x10mm"@, "nickel_strip"@)
    } else {
        ("Copper Busbar 2mm"@, "busbar"@)
    }
}

/// `m` is row `k` of the baseline material library.
pub open spec fn is_baseline_material(m: Material, k: int) -> bool {
    if k == 0 {
        &&& m.id == 1
        &&& m.name@ == "Pure Nickel 0.15x8mm"@
        &&& m.material_type@ == "nickel_strip"@
        &&& m.thickness_mm == Some(Real { bits: 0x3FC3_3333_3333_3333 })
        &&& m.width_mm == Some(Real { bits: 0x4020_0000_0000_0000 })
        &&& m.resistance_mohm_per_m.bits == 0x4051_8000_0000_0000
        &&& m.max_current_a.bits == 0x402E_0000_0000_0000
    } else if k == 1 {
        &&& m.id == 2
        &&& m.name@ == "Pure Nickel 0.2x10mm"@
        &&& m.material_type@ == "nickel_strip"@
        &&& m.thickness_mm == Some(Real { bits: 0x3FC9_9999_9999_999A })
        &&& m.width_mm == Some(Real { bits: 0x4024_0000_0000_0000 })
        &&& m.resistance_mohm_per_m.bits == 0x4049_0000_0000_0000
        &&& m.max_current_a.bits == 0x4039_0000_0000_0000
    } else if k == 2 {
        &&& m.id == 3
        &&& m.name@ == "Copper Busbar 2mm"@
        &&& m.material_type@ == "busbar"@
        &&& m.thickness_mm == Some(Real { bits: 0x4000_0000_0000_0000 })
        &&& m.width_mm == Some(Real { bits: 0x4034_0000_0000_0000 })
        &&& m.resistance_mohm_per_m.bits == 0x4021_0000_0000_0000
        &&& m.max_current_a.bits == 0x4059_0000_0000_0000
    } else {
        false
    }
}

/// Two different rows of the baseline cells differ in id and in key.
pub proof fn lemma_baseline_cells_differ(a: Cell, b: Cell, j: int, k: int)
    requires
        0 <= j < BASELINE_CELLS,
        0 <= k < BASELINE_CELLS,
        j != k,
        is_baseline_cell(a, j),
        is_baseline_cell(b, k),
    ensures
        a.id != b.id,
        a.manufacturer@ != b.manufacturer@ || a.model@ != b.model@,
{
    reveal_strlit("Samsung");
    reveal_strlit("Molicel");
    reveal_strlit("LG");
    reveal_strlit("EVE");
    reveal_strlit("30Q");
    reveal_strlit("40T");
    reveal_strlit("P42A");
    reveal_strlit("HG2");
    reveal_strlit("40P");
    if a.manufacturer@[0] == b.manufacturer@[0] {
        assert(a.model@[1] != b.model@[1] || a.model@[0] != b.model@[0]);
    }
}

/// Two different rows of the baseline materials differ in id and in key.
pub proof fn lemma_baseline_materials_differ(a: Material, b: Material, j: int, k: int)
    requires
        0 <= j < BASELINE_MATERIALS,
        0 <= k < BASELINE_MATERIALS,
        j != k,
        is_baseline_material(a, j),
        is_baseline_material(b, k),
    ensures
        a.id != b.id,
        a.name@ != b.name@ || a.material_type@ != b.material_type@,
{
    reveal_strlit("Pure Nickel 0.15x8mm");
    reveal_strlit("Pure Nickel 0.2x10mm");
    reveal_strlit("Copper Busbar 2mm");
    if a.name@[0] == b.name@[0] {
        assert(a.name@[14] != b.name@[14]);
    }
}

fn bits_value(bits: u64) -> (r: Real)
    ensures
        r.bits == bits,
{
    Real { bits }
}

/// Row `k` of the baseline cell library.
pub fn baseline_cell(k: usize) -> (r: Cell)
    requires
        k < BASELINE_CELLS,
    ensures
        is_baseline_cell(r, k as int),
{
    if k == 0 {
        proof {
            reveal_strlit("Samsung");
            reveal_strlit("30Q");
            reveal_strlit("18650");
            reveal_strlit("NMC");
        }
        Cell {
            id: 1,
            manufacturer: owned("Samsung"),
            model: owned("30Q"),
            form_factor: owned("18650"),
            chemistry: owned("NMC"),
            nominal_voltage: bits_value(0x400C_CCCC_CCCC_CCCD),
            max_voltage: bits_value(0x4010_CCCC_CCCC_CCCD),
            min_voltage: bits_value(0x4004_0000_0000_0000),
            capacity_mah: 3000,
            max_discharge_a: bits_value(0x402E_0000_0000_0000),
            max_charge_a: bits_value(0x4010_0000_0000_0000),
            internal_res_mohm: Some(bits_value(0x4034_0000_0000_0000)),
            weight_g: bits_value(0x4048_0000_0000_0000),
            diameter_mm: Some(bits_value(0x4032_4CCC_CCCC_CCCD)),
            length_mm: bits_value(0x4050_4CCC_CCCC_CCCD),
            width_mm: None,
            height_mm: None,
            datasheet_url: None,
            thermal_limit_c: Some(bits_value(0x404E_0000_0000_0000)),
            cycle_life: Some(250),
        }
    } else if k == 1 {
        proof {
            reveal_strlit("Samsung");
            reveal_strlit("40T");
            reveal_strlit("21700");
            reveal_strlit("NMC");
        }
        Cell {
            id: 2,
            manufacturer: owned("Samsung"),
            model: owned("40T"),
            form_factor: owned("21700"),
            chemistry: owned("NMC"),
            nominal_voltage: bits_value(0x400C_CCCC_CCCC_CCCD),
            max_voltage: bits_value(0x4010_CCCC_CCCC_CCCD),
            min_voltage: bits_value(0x4004_0000_0000_0000),
            capacity_mah: 4000,
            max_discharge_a: bits_value(0x4041_8000_0000_0000),
            max_charge_a: bits_value(0x4018_0000_0000_0000),
            internal_res_mohm: Some(bits_value(0x4028_0000_0000_0000)),
            weight_g: bits_value(0x4051_8000_0000_0000),
            diameter_mm: Some(bits_value(0x4035_1999_9999_999A)),
            length_mm: bits_value(0x4051_8CCC_CCCC_CCCD),
            width_mm: None,
            height_mm: None,
            datasheet_url: None,
            thermal_limit_c: Some(bits_value(0x404E_0000_0000_0000)),
            cycle_life: Some(300),
        }
    } else if k == 2 {
        proof {
            reveal_strlit("Molicel");
            reveal_strlit("P42A");
            reveal_strlit("21700");
            reveal_strlit("NMC");
        }
        Cell {
            id: 3,
            manufacturer: owned("Molicel"),
            model: owned("P42A"),
            form_factor: owned("21700"),
            chemistry: owned("NMC"),
            nominal_voltage: bits_value(0x400C_CCCC_CCCC_CCCD),
            max_voltage: bits_value(0x4010_CCCC_CCCC_CCCD),
            min_voltage: bits_value(0x4004_0000_0000_0000),
            capacity_mah: 4200,
            max_discharge_a: bits_value(0x4046_8000_0000_0000),
            max_charge_a: bits_value(0x4018_0000_0000_0000),
            internal_res_mohm: Some(bits_value(0x4024_0000_0000_0000)),
            weight_g: bits_value(0x4051_8000_0000_0000),
            diameter_mm: Some(bits_value(0x4035_1999_9999_999A)),
            length_mm: bits_value(0x4051_8CCC_CCCC_CCCD),
            width_mm: None,
            height_mm: None,
            datasheet_url: None,
            thermal_limit_c: Some(bits_value(0x404E_0000_0000_0000)),
            cycle_life: Some(800),
        }
    } else if k == 3 {
        proof {
            reveal_strlit("LG");
            reveal_strlit("HG2");
            reveal_strlit("18650");
            reveal_strlit("NMC");
        }
        Cell {
            id: 4,
            manufacturer: owned("LG"),
            model: owned("HG2"),
            form_factor: owned("18650"),
            chemistry: owned("NMC"),
            nominal_voltage: bits_value(0x400C_CCCC_CCCC_CCCD),
            max_voltage: bits_value(0x4010_CCCC_CCCC_CCCD),
            min_voltage: bits_value(0x4004_0000_0000_0000),
            capacity_mah: 3000,
            max_discharge_a: bits_value(0x4034_0000_0000_0000),
            max_charge_a: bits_value(0x4010_0000_0000_0000),
            internal_res_mohm: Some(bits_value(0x4032_0000_0000_0000)),
            weight_g: bits_value(0x4048_0000_0000_0000),
            diameter_mm: Some(bits_value(0x4032_4CCC_CCCC_CCCD)),
            length_mm: bits_value(0x4050_4CCC_CCCC_CCCD),
            width_mm: None,
            height_mm: None,
            datasheet_url: None,
            thermal_limit_c: Some(bits_value(0x404E_0000_0000_0000)),
            cycle_life: Some(300),
        }
    } else {
        proof {
            reveal_strlit("EVE");
            reveal_strlit("40P");
            reveal_strlit("21700");
            reveal_strlit("NMC");
        }
        Cell {
            id: 5,
            manufacturer: owned("EVE"),
            model: owned("40P"),
            form_factor: owned("21700"),
            chemistry: owned("NMC"),
            nominal_voltage: bits_value(0x400C_CCCC_CCCC_CCCD),
            max_voltage: bits_value(0x4010_CCCC_CCCC_CCCD),
            min_voltage: bits_value(0x4004_0000_0000_0000),
            capacity_mah: 4000,
            max_discharge_a: bits_value(0x4024_0000_0000_0000),
            max_charge_a: bits_value(0x4010_0000_0000_0000),
            internal_res_mohm: Some(bits_value(0x402E_0000_0000_0000)),
            weight_g: bits_value(0x4051_0000_0000_0000),
            diameter_mm: Some(bits_value(0x4035_1999_9999_999A)),
            length_mm: bits_value(0x4051_8CCC_CCCC_CCCD),
            width_mm: None,
            height_mm: None,
            datasheet_url: None,
            thermal_limit_c: Some(bits_value(0x404E_0000_0000_0000)),
            cycle_life: Some(1000),
        }
    }
}

/// Row `k` of the baseline material library.
pub fn baseline_material(k: usize) -> (r: Material)
    requires
        k < BASELINE_MATERIALS,
    ensures
        is_baseline_material(r, k as int),
{
    if k == 0 {
        proof {
            reveal_strlit("Pure Nickel 0.15x8mm");
            reveal_strlit("nickel_strip");
        }
        Material {
            id: 1,
            name: owned("Pure Nickel 0.15x8mm"),
            material_type: owned("nickel_strip"),
            thickness_mm: Some(bits_value(0x3FC3_3333_3333_3333)),
            width_mm: Some(bits_value(0x4020_0000_0000_0000)),
            resistance_mohm_per_m: bits_value(0x4051_8000_0000_0000),
            max_current_a: bits_value(0x402E_0000_0000_0000),
        }
    } else if k == 1 {
        proof {
            reveal_strlit("Pure Nickel 0.2x10mm");
            reveal_strlit("nickel_strip");
        }
        Material {
            id: 2,
            name: owned("Pure Nickel 0.2x10mm"),
            material_type: owned("nickel_strip"),
            thickness_mm: Some(bits_value(0x3FC9_9999_9999_999A)),
            width_mm: Some(bits_value(0x4024_0000_0000_0000)),
            resistance_mohm_per_m: bits_value(0x4049_0000_0000_0000),
            max_current_a: bits_value(0x4039_0000_0000_0000),
        }
    } else {
        proof {
            reveal_strlit("Copper Busbar 2mm");
            reveal_strlit("busbar");
        }
        Material {
            id: 3,
            name: owned("Copper Busbar 2mm"),
            material_type: owned("busbar"),
            thickness_mm: Some(bits_value(0x4000_0000_0000_0000)),
            width_mm: Some(bits_value(0x4034_0000_0000_0000)),
            resistance_mohm_per_m: bits_value(0x4021_0000_0000_0000),
            max_current_a: bits_value(0x4059_0000_0000_0000),
        }
    }
}

} // verus!
