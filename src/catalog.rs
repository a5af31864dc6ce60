use vstd::prelude::*;

use crate::model::{DatabaseError, Real};
use crate::search::{
    cell_matches, cell_matches_text, is_word_char, lemma_field_token_matches, starts_token,
};
use crate::seed::{
    baseline_cell, baseline_material, baseline_material_id, baseline_material_key, is_baseline_cell, is_baseline_material,
    lemma_baseline_cells_differ, lemma_baseline_materials_differ, BASELINE_CELLS,
    BASELINE_MATERIALS,
};
use crate::text::{
    lemma_text_lt_asymmetric, lemma_text_lt_total, lemma_text_lt_transitive, owned, same_text,
    text_less, text_lt,
};

verus! {

/// A battery cell of the catalog.
#[derive(Clone, Debug, PartialEq)]
pub struct Cell {
    pub id: i64,
    pub manufacturer: String,
    pub model: String,
    pub form_factor: String,
    pub chemistry: String,
    pub nominal_voltage: Real,
    pub max_voltage: Real,
    pub min_voltage: Real,
    pub capacity_mah: i32,
    pub max_discharge_a: Real,
    pub max_charge_a: Real,
    pub internal_res_mohm: Option<Real>,
    pub weight_g: Real,
    pub diameter_mm: Option<Real>,
    pub length_mm: Real,
    pub width_mm: Option<Real>,
    pub height_mm: Option<Real>,
    pub datasheet_url: Option<String>,
    pub thermal_limit_c: Option<Real>,
    pub cycle_life: Option<i32>,
}

/// A battery-management board of the catalog.
#[derive(Clone, Debug, PartialEq)]
pub struct Bms {
    pub id: i64,
    pub manufacturer: String,
    pub model: String,
    pub series_count: i32,
    pub max_current_a: Real,
    pub balance_current_ma: Option<Real>,
    pub length_mm: Real,
    pub width_mm: Real,
    pub height_mm: Real,
    pub pinout_json: Option<String>,
}

/// An interconnect material of the catalog.
#[derive(Clone, Debug, PartialEq)]
pub struct Material {
    pub id: i64,
    pub name: String,
    pub material_type: String,
    pub thickness_mm: Option<Real>,
    pub width_mm: Option<Real>,
    pub resistance_mohm_per_m: Real,
    pub max_current_a: Real,
}

/// A mounting shape of the catalog.
#[derive(Clone, Debug, PartialEq)]
pub struct Shape {
    pub id: i64,
    pub name: String,
    pub category: String,
    pub file_path: String,
    pub default_scale: String,
}

fn copy_text(s: &Option<String>) -> (r: Option<String>)
    ensures
        r == *s,
{
    match s {
        Some(t) => Some(t.clone()),
        None => None,
    }
}

/// The form factors a cell may have.
pub open spec fn is_form_factor(s: Seq<char>) -> bool {
    s == "18650"@ || s == "21700"@ || s == "26650"@ || s == "4680"@ || s == "prismatic"@ || s
        == "pouch"@
}

/// The chemistries a cell may have.
pub open spec fn is_chemistry(s: Seq<char>) -> bool {
    s == "NMC"@ || s == "NCA"@ || s == "LFP"@ || s == "LTO"@ || s == "LCO"@
}

/// A cell whose enumerated fields hold accepted values.
pub open spec fn valid_cell(c: Cell) -> bool {
    is_form_factor(c.form_factor@) && is_chemistry(c.chemistry@)
}

/// Key `a` sorts before key `b`: by first text, then by second.
pub open spec fn key_before(a: (Seq<char>, Seq<char>), b: (Seq<char>, Seq<char>)) -> bool {
    text_lt(a.0, b.0) || (a.0 == b.0 && text_lt(a.1, b.1))
}

proof fn lemma_key_before_transitive(
    a: (Seq<char>, Seq<char>),
    b: (Seq<char>, Seq<char>),
    c: (Seq<char>, Seq<char>),
)
    requires
        key_before(a, b),
        key_before(b, c),
    ensures
        key_before(a, c),
{
    if text_lt(a.0, b.0) && text_lt(b.0, c.0) {
        lemma_text_lt_transitive(a.0, b.0, c.0);
    } else if text_lt(a.1, b.1) && text_lt(b.1, c.1) && a.0 == b.0 && b.0 == c.0 {
        lemma_text_lt_transitive(a.1, b.1, c.1);
    }
}

proof fn lemma_key_before_total(a: (Seq<char>, Seq<char>), b: (Seq<char>, Seq<char>))
    requires
        a != b,
        !key_before(a, b),
    ensures
        key_before(b, a),
{
    if a.0 != b.0 {
        lemma_text_lt_total(a.0, b.0);
    } else {
        assert(a.1 != b.1);
        lemma_text_lt_total(a.1, b.1);
    }
}

proof fn lemma_key_before_irreflexive(a: (Seq<char>, Seq<char>))
    ensures
        !key_before(a, a),
{
    lemma_text_lt_asymmetric(a.0, a.0);
    lemma_text_lt_asymmetric(a.1, a.1);
}

/// A row of a catalog table: it has an id, a natural key that orders the
/// table, and enumerated fields that must hold accepted values.
pub trait CatalogRow: Sized {
    spec fn row_id(&self) -> i64;

    spec fn row_key(&self) -> (Seq<char>, Seq<char>);

    spec fn accepted(&self) -> bool;

    fn id_of(&self) -> (r: i64)
        ensures
            r == self.row_id(),
    ;

    fn key_less(&self, other: &Self) -> (r: bool)
        ensures
            r == key_before(self.row_key(), other.row_key()),
    ;

    fn key_equal(&self, other: &Self) -> (r: bool)
        ensures
            r == (self.row_key() == other.row_key()),
    ;

    fn check_fields(&self) -> (r: bool)
        ensures
            r == self.accepted(),
    ;

    fn duplicate(&self) -> (r: Self)
        ensures
            r == *self,
    ;
}

/// Rows strictly ordered by key, so no key repeats.
pub open spec fn rows_ordered<R: CatalogRow>(rows: Seq<R>) -> bool {
    forall|i: int, j: int|
        0 <= i < j < rows.len() ==> key_before(
            #[trigger] rows[i].row_key(),
            #[trigger] rows[j].row_key(),
        )
}

/// No two rows share an id.
pub open spec fn row_ids_distinct<R: CatalogRow>(rows: Seq<R>) -> bool {
    forall|i: int, j: int|
        0 <= i < rows.len() && 0 <= j < rows.len() && i != j ==> #[trigger] rows[i].row_id()
            != #[trigger] rows[j].row_id()
}

/// A table as it must always stand: ordered by key, ids distinct, fields accepted.
pub open spec fn rows_wf<R: CatalogRow>(rows: Seq<R>) -> bool {
    &&& rows_ordered(rows)
    &&& row_ids_distinct(rows)
    &&& forall|i: int| 0 <= i < rows.len() ==> (#[trigger] rows[i]).accepted()
}

/// Some row has the id `id`.
pub open spec fn has_row_id<R: CatalogRow>(rows: Seq<R>, id: i64) -> bool {
    exists|i: int| 0 <= i < rows.len() && #[trigger] rows[i].row_id() == id
}

/// Some row has the key `k`.
pub open spec fn has_row_key<R: CatalogRow>(rows: Seq<R>, k: (Seq<char>, Seq<char>)) -> bool {
    exists|i: int| 0 <= i < rows.len() && #[trigger] rows[i].row_key() == k
}

/// The error for a row that breaks a constraint of the catalog.
fn constraint_error(what: &str) -> (r: DatabaseError) {
    DatabaseError { message: owned(what) }
}

/// Adds a row at its place in key order. It is refused when a field holds a
/// value that is not accepted, when its id is taken, or when another row has
/// its key; the table is then left as it was.
pub fn insert_row<R: CatalogRow>(rows: &mut Vec<R>, row: R) -> (r: Result<(), DatabaseError>)
    requires
        rows_wf(old(rows)@),
    ensures
        rows_wf(final(rows)@),
        r is Ok <==> row.accepted() && !has_row_id(old(rows)@, row.row_id()) && !has_row_key(
            old(rows)@,
            row.row_key(),
        ),
        r is Ok ==> exists|p: int|
            0 <= p <= old(rows)@.len() && final(rows)@ == old(rows)@.insert(p, row),
        r is Err ==> final(rows)@ == old(rows)@,
{
    if !row.check_fields() {
        return Err(constraint_error("A field of the row holds a value that is not accepted"));
    }
    let n = rows.len();
    let id = row.id_of();
    let mut i: usize = 0;
    while i < n
        invariant
            n == rows@.len(),
            i <= n,
            rows@ == old(rows)@,
            rows_wf(rows@),
            id == row.row_id(),
            forall|j: int| 0 <= j < i ==> rows@[j].row_id() != id,
        decreases n - i,
    {
        if rows[i].id_of() == id {
            return Err(constraint_error("The row id is already taken"));
        }
        i = i + 1;
    }
    let mut p: usize = 0;
    while p < n && rows[p].key_less(&row)
        invariant
            n == rows@.len(),
            p <= n,
            rows@ == old(rows)@,
            rows_wf(rows@),
            forall|j: int| 0 <= j < n ==> rows@[j].row_id() != row.row_id(),
            forall|j: int| 0 <= j < p ==> key_before(rows@[j].row_key(), row.row_key()),
        decreases n - p,
    {
        p = p + 1;
    }
    proof {
        assert forall|j: int| 0 <= j < p implies rows@[j].row_key() != row.row_key() by {
            lemma_key_before_irreflexive(row.row_key());
        }
    }
    if p < n && rows[p].key_equal(&row) {
        return Err(constraint_error("The row key is already taken"));
    }
    let ghost before = rows@;
    proof {
        if p < n {
            lemma_key_before_total(before[p as int].row_key(), row.row_key());
            assert forall|j: int| p <= j < n implies key_before(
                row.row_key(),
                before[j].row_key(),
            ) && before[j].row_key() != row.row_key() by {
                if j > p {
                    lemma_key_before_transitive(
                        row.row_key(),
                        before[p as int].row_key(),
                        before[j].row_key(),
                    );
                }
                lemma_key_before_irreflexive(row.row_key());
            }
        }
        assert(!has_row_key(before, row.row_key()));
    }
    rows.insert(p, row);
    proof {
        let after = rows@;
        assert(after == before.insert(p as int, row));
        assert forall|a: int, b: int| 0 <= a < b < after.len() implies key_before(
            #[trigger] after[a].row_key(),
            #[trigger] after[b].row_key(),
        ) by {
            if a < p && b == p {
            } else if a == p {
            } else if a < p && b > p {
                assert(after[b] == before[b - 1]);
            } else if a > p {
                assert(after[a] == before[a - 1] && after[b] == before[b - 1]);
            } else {
                assert(after[a] == before[a] && after[b] == before[b]);
            }
        }
        assert forall|a: int, b: int|
            0 <= a < after.len() && 0 <= b < after.len() && a != b implies #[trigger] after[a].row_id()
            != #[trigger] after[b].row_id() by {
            if a < p {
                assert(after[a] == before[a]);
            } else if a > p {
                assert(after[a] == before[a - 1]);
            }
            if b < p {
                assert(after[b] == before[b]);
            } else if b > p {
                assert(after[b] == before[b - 1]);
            }
        }
        assert forall|a: int| 0 <= a < after.len() implies (#[trigger] after[a]).accepted() by {
            if a < p {
                assert(after[a] == before[a]);
            } else if a > p {
                assert(after[a] == before[a - 1]);
            }
        }
    }
    Ok(())
}

/// Removes the row with the given id, if there is one.
pub fn remove_row<R: CatalogRow>(rows: &mut Vec<R>, id: i64) -> (r: bool)
    requires
        rows_wf(old(rows)@),
    ensures
        rows_wf(final(rows)@),
        r == has_row_id(old(rows)@, id),
        r ==> exists|p: int|
            0 <= p < old(rows)@.len() && old(rows)@[p].row_id() == id && final(rows)@
                == old(rows)@.remove(p),
        !r ==> final(rows)@ == old(rows)@,
{
    let n = rows.len();
    let mut i: usize = 0;
    while i < n
        invariant
            n == rows@.len(),
            i <= n,
            rows@ == old(rows)@,
            rows_wf(rows@),
            forall|j: int| 0 <= j < i ==> rows@[j].row_id() != id,
        decreases n - i,
    {
        if rows[i].id_of() == id {
            let ghost before = rows@;
            rows.remove(i);
            proof {
                let after = rows@;
                assert(after == before.remove(i as int));
                assert forall|a: int, b: int| 0 <= a < b < after.len() implies key_before(
                    #[trigger] after[a].row_key(),
                    #[trigger] after[b].row_key(),
                ) by {
                    let x = if a < i { a } else { a + 1 };
                    let y = if b < i { b } else { b + 1 };
                    assert(after[a] == before[x] && after[b] == before[y]);
                }
                assert forall|a: int, b: int|
                    0 <= a < after.len() && 0 <= b < after.len() && a != b implies #[trigger] after[a].row_id()
                    != #[trigger] after[b].row_id() by {
                    let x = if a < i { a } else { a + 1 };
                    let y = if b < i { b } else { b + 1 };
                    assert(after[a] == before[x] && after[b] == before[y]);
                }
                assert forall|a: int| 0 <= a < after.len() implies (#[trigger] after[a]).accepted() by {
                    let x = if a < i { a } else { a + 1 };
                    assert(after[a] == before[x]);
                }
            }
            return true;
        }
        i = i + 1;
    }
    false
}

/// Whether some row has the id `id`.
pub fn contains_id<R: CatalogRow>(rows: &Vec<R>, id: i64) -> (r: bool)
    ensures
        r == has_row_id(rows@, id),
{
    let mut i: usize = 0;
    while i < rows.len()
        invariant
            i <= rows@.len(),
            forall|j: int| 0 <= j < i ==> rows@[j].row_id() != id,
        decreases rows@.len() - i,
    {
        if rows[i].id_of() == id {
            return true;
        }
        i = i + 1;
    }
    false
}

/// Copies every row, in order.
pub fn copy_rows<R: CatalogRow>(rows: &Vec<R>) -> (r: Vec<R>)
    ensures
        r@ == rows@,
{
    let mut out: Vec<R> = Vec::new();
    let mut i: usize = 0;
    while i < rows.len()
        invariant
            i <= rows@.len(),
            out@ == rows@.subrange(0, i as int),
        decreases rows@.len() - i,
    {
        out.push(rows[i].duplicate());
        i = i + 1;
        proof {
            assert(out@ =~= rows@.subrange(0, i as int));
        }
    }
    proof {
        assert(out@ =~= rows@);
    }
    out
}

/// Whether the form factor and chemistry of a cell are accepted values.
pub fn check_cell_fields(c: &Cell) -> (r: bool)
    ensures
        r == valid_cell(*c),
{
    proof {
        reveal_strlit("18650");
        reveal_strlit("21700");
        reveal_strlit("26650");
        reveal_strlit("4680");
        reveal_strlit("prismatic");
        reveal_strlit("pouch");
        reveal_strlit("NMC");
        reveal_strlit("NCA");
        reveal_strlit("LFP");
        reveal_strlit("LTO");
        reveal_strlit("LCO");
    }
    let f = c.form_factor.as_str();
    let h = c.chemistry.as_str();
    let form_ok = same_text(f, "18650") || same_text(f, "21700") || same_text(f, "26650")
        || same_text(f, "4680") || same_text(f, "prismatic") || same_text(f, "pouch");
    let chem_ok = same_text(h, "NMC") || same_text(h, "NCA") || same_text(h, "LFP") || same_text(
        h,
        "LTO",
    ) || same_text(h, "LCO");
    form_ok && chem_ok
}

impl CatalogRow for Cell {
    open spec fn row_id(&self) -> i64 {
        self.id
    }

    open spec fn row_key(&self) -> (Seq<char>, Seq<char>) {
        (self.manufacturer@, self.model@)
    }

    open spec fn accepted(&self) -> bool {
        valid_cell(*self)
    }

    fn id_of(&self) -> (r: i64) {
        self.id
    }

    fn key_less(&self, other: &Self) -> (r: bool) {
        text_less(self.manufacturer.as_str(), other.manufacturer.as_str()) || (self.manufacturer
            == other.manufacturer && text_less(self.model.as_str(), other.model.as_str()))
    }

    fn key_equal(&self, other: &Self) -> (r: bool) {
        self.manufacturer == other.manufacturer && self.model == other.model
    }

    fn check_fields(&self) -> (r: bool) {
        check_cell_fields(self)
    }

    fn duplicate(&self) -> (r: Cell) {
        Cell {
            id: self.id,
            manufacturer: self.manufacturer.clone(),
            model: self.model.clone(),
            form_factor: self.form_factor.clone(),
            chemistry: self.chemistry.clone(),
            nominal_voltage: self.nominal_voltage,
            max_voltage: self.max_voltage,
            min_voltage: self.min_voltage,
            capacity_mah: self.capacity_mah,
            max_discharge_a: self.max_discharge_a,
            max_charge_a: self.max_charge_a,
            internal_res_mohm: self.internal_res_mohm,
            weight_g: self.weight_g,
            diameter_mm: self.diameter_mm,
            length_mm: self.length_mm,
            width_mm: self.width_mm,
            height_mm: self.height_mm,
            datasheet_url: copy_text(&self.datasheet_url),
            thermal_limit_c: self.thermal_limit_c,
            cycle_life: self.cycle_life,
        }
    }
}

impl CatalogRow for Bms {
    open spec fn row_id(&self) -> i64 {
        self.id
    }

    open spec fn row_key(&self) -> (Seq<char>, Seq<char>) {
        (self.manufacturer@, self.model@)
    }

    open spec fn accepted(&self) -> bool {
        true
    }

    fn id_of(&self) -> (r: i64) {
        self.id
    }

    fn key_less(&self, other: &Self) -> (r: bool) {
        text_less(self.manufacturer.as_str(), other.manufacturer.as_str()) || (self.manufacturer
            == other.manufacturer && text_less(self.model.as_str(), other.model.as_str()))
    }

    fn key_equal(&self, other: &Self) -> (r: bool) {
        self.manufacturer == other.manufacturer && self.model == other.model
    }

    fn check_fields(&self) -> (r: bool) {
        true
    }

    fn duplicate(&self) -> (r: Bms) {
        Bms {
            id: self.id,
            manufacturer: self.manufacturer.clone(),
            model: self.model.clone(),
            series_count: self.series_count,
            max_current_a: self.max_current_a,
            balance_current_ma: self.balance_current_ma,
            length_mm: self.length_mm,
            width_mm: self.width_mm,
            height_mm: self.height_mm,
            pinout_json: copy_text(&self.pinout_json),
        }
    }
}

/// The kinds a material may have.
pub open spec fn is_material_type(s: Seq<char>) -> bool {
    s == "nickel_strip"@ || s == "copper_strip"@ || s == "busbar"@ || s == "wire"@
}

impl CatalogRow for Material {
    open spec fn row_id(&self) -> i64 {
        self.id
    }

    open spec fn row_key(&self) -> (Seq<char>, Seq<char>) {
        (self.name@, self.material_type@)
    }

    open spec fn accepted(&self) -> bool {
        is_material_type(self.material_type@)
    }

    fn id_of(&self) -> (r: i64) {
        self.id
    }

    fn key_less(&self, other: &Self) -> (r: bool) {
        text_less(self.name.as_str(), other.name.as_str()) || (self.name == other.name
            && text_less(self.material_type.as_str(), other.material_type.as_str()))
    }

    fn key_equal(&self, other: &Self) -> (r: bool) {
        self.name == other.name && self.material_type == other.material_type
    }

    fn check_fields(&self) -> (r: bool) {
        proof {
            reveal_strlit("nickel_strip");
            reveal_strlit("copper_strip");
            reveal_strlit("busbar");
            reveal_strlit("wire");
        }
        let t = self.material_type.as_str();
        same_text(t, "nickel_strip") || same_text(t, "copper_strip") || same_text(t, "busbar")
            || same_text(t, "wire")
    }

    fn duplicate(&self) -> (r: Material) {
        Material {
            id: self.id,
            name: self.name.clone(),
            material_type: self.material_type.clone(),
            thickness_mm: self.thickness_mm,
            width_mm: self.width_mm,
            resistance_mohm_per_m: self.resistance_mohm_per_m,
            max_current_a: self.max_current_a,
        }
    }
}

/// The categories a shape may have.
pub open spec fn is_shape_category(s: Seq<char>) -> bool {
    s == "enclosure"@ || s == "bracket"@ || s == "spacer"@ || s == "vent"@ || s == "terminal"@
}

impl CatalogRow for Shape {
    open spec fn row_id(&self) -> i64 {
        self.id
    }

    open spec fn row_key(&self) -> (Seq<char>, Seq<char>) {
        (self.name@, Seq::empty())
    }

    open spec fn accepted(&self) -> bool {
        is_shape_category(self.category@)
    }

    fn id_of(&self) -> (r: i64) {
        self.id
    }

    fn key_less(&self, other: &Self) -> (r: bool) {
        proof {
            lemma_text_lt_asymmetric(Seq::<char>::empty(), Seq::<char>::empty());
        }
        text_less(self.name.as_str(), other.name.as_str())
    }

    fn key_equal(&self, other: &Self) -> (r: bool) {
        self.name == other.name
    }

    fn check_fields(&self) -> (r: bool) {
        proof {
            reveal_strlit("enclosure");
            reveal_strlit("bracket");
            reveal_strlit("spacer");
            reveal_strlit("vent");
            reveal_strlit("terminal");
        }
        let c = self.category.as_str();
        same_text(c, "enclosure") || same_text(c, "bracket") || same_text(c, "spacer")
            || same_text(c, "vent") || same_text(c, "terminal")
    }

    fn duplicate(&self) -> (r: Shape) {
        Shape {
            id: self.id,
            name: self.name.clone(),
            category: self.category.clone(),
            file_path: self.file_path.clone(),
            default_scale: self.default_scale.clone(),
        }
    }
}

/// Another row than the one with `c`'s id has `c`'s key.
pub open spec fn key_taken_by_other(rows: Seq<Cell>, c: Cell) -> bool {
    exists|i: int| 0 <= i < rows.len() && #[trigger] rows[i].row_key() == c.row_key() && rows[i].id != c.id
}

/// The rows of `rows[..n]` that match the query `q`, in order.
pub open spec fn matching_cells(rows: Seq<Cell>, q: Seq<char>, n: int) -> Seq<Cell>
    decreases n,
{
    if n <= 0 || n > rows.len() {
        Seq::empty()
    } else {
        let here = if cell_matches(rows[n - 1], q) {
            seq![rows[n - 1]]
        } else {
            Seq::empty()
        };
        matching_cells(rows, q, n - 1) + here
    }
}

/// What a listing of cells returns: every cell without a filter, else the
/// cells that match it; in both cases in (manufacturer, model) order.
pub open spec fn listed_cells(rows: Seq<Cell>, search: Option<Seq<char>>) -> Seq<Cell> {
    match search {
        None => rows,
        Some(q) => matching_cells(rows, q, rows.len() as int),
    }
}

/// Some row of `rows` is row `k` of the baseline cells.
pub open spec fn holds_baseline_cell(rows: Seq<Cell>, k: int) -> bool {
    exists|j: int| 0 <= j < rows.len() && is_baseline_cell(#[trigger] rows[j], k)
}

/// `c` is one of the first `n` baseline cells.
pub open spec fn baseline_cell_below(c: Cell, n: int) -> bool {
    exists|k: int| 0 <= k < n && #[trigger] is_baseline_cell(c, k)
}

/// `m` is one of the first `n` baseline materials.
pub open spec fn baseline_material_below(m: Material, n: int) -> bool {
    exists|k: int| 0 <= k < n && #[trigger] is_baseline_material(m, k)
}

/// `c` is one of the baseline cells.
pub open spec fn is_some_baseline_cell(c: Cell) -> bool {
    exists|k: int| 0 <= k < BASELINE_CELLS && #[trigger] is_baseline_cell(c, k)
}

/// Some row of `rows` is row `k` of the baseline materials.
pub open spec fn holds_baseline_material(rows: Seq<Material>, k: int) -> bool {
    exists|j: int| 0 <= j < rows.len() && is_baseline_material(#[trigger] rows[j], k)
}

/// Neither the id nor the (name, type) of baseline material `k` is taken in `rows`.
pub open spec fn baseline_material_free(rows: Seq<Material>, k: int) -> bool {
    !has_row_id(rows, baseline_material_id(k)) && !has_row_key(rows, baseline_material_key(k))
}

/// `m` is one of the first `n` baseline materials, and its id and key were free in `rows`.
pub open spec fn added_baseline_material(rows: Seq<Material>, m: Material, n: int) -> bool {
    exists|k: int|
        0 <= k < n && #[trigger] is_baseline_material(m, k) && baseline_material_free(rows, k)
}

/// The outcome of seeding a catalog that held `a`, leaving `b`.
pub open spec fn seeded(a: CatalogView, b: CatalogView) -> bool {
    if a.cells.len() > 0 {
        b == a
    } else {
        &&& b.cells.len() == BASELINE_CELLS
        &&& forall|k: int| 0 <= k < BASELINE_CELLS ==> #[trigger] holds_baseline_cell(b.cells, k)
        &&& forall|j: int| 0 <= j < b.cells.len() ==> #[trigger] is_some_baseline_cell(b.cells[j])
        &&& forall|j: int|
            0 <= j < a.materials.len() ==> b.materials.contains(#[trigger] a.materials[j])
        &&& forall|k: int|
            0 <= k < BASELINE_MATERIALS && #[trigger] baseline_material_free(a.materials, k)
                ==> holds_baseline_material(b.materials, k)
        &&& forall|j: int|
            0 <= j < b.materials.len() ==> a.materials.contains(#[trigger] b.materials[j])
                || added_baseline_material(a.materials, b.materials[j], BASELINE_MATERIALS as int)
        &&& b.shapes == a.shapes
        &&& b.bms == a.bms
    }
}

/// Seeding twice leaves what seeding once left, and seeding a catalog that
/// already holds cells changes nothing.
pub proof fn lemma_seed_idempotent(a: CatalogView, b: CatalogView, c: CatalogView)
    requires
        seeded(a, b),
        seeded(b, c),
    ensures
        c == b,
        a.cells.len() > 0 ==> b == a,
{
}

proof fn lemma_matching_prefix(rows: Seq<Cell>, q: Seq<char>, n: int, c: Cell)
    requires
        0 <= n <= rows.len(),
    ensures
        matching_cells(rows, q, n).contains(c) <==> (exists|i: int|
            0 <= i < n && #[trigger] rows[i] == c) && cell_matches(c, q),
    decreases n,
{
    if n > 0 {
        lemma_matching_prefix(rows, q, n - 1, c);
        let prev = matching_cells(rows, q, n - 1);
        let here = if cell_matches(rows[n - 1], q) {
            seq![rows[n - 1]]
        } else {
            Seq::<Cell>::empty()
        };
        let all = prev + here;
        assert(matching_cells(rows, q, n) == all);
        if all.contains(c) {
            let j = choose|j: int| 0 <= j < all.len() && all[j] == c;
            if j >= prev.len() {
                assert(rows[n - 1] == c);
            } else {
                assert(prev[j] == c);
            }
        }
        if (exists|i: int| 0 <= i < n && #[trigger] rows[i] == c) && cell_matches(c, q) {
            if prev.contains(c) {
                let j = choose|j: int| 0 <= j < prev.len() && prev[j] == c;
                assert(all[j] == c);
            } else {
                assert(rows[n - 1] == c);
                assert(all[prev.len() as int] == c);
            }
        }
    }
}

/// A filtered listing holds exactly the current rows that match the filter:
/// no row that is gone, and no matching row missing.
pub proof fn lemma_search_reflects_rows(rows: Seq<Cell>, q: Seq<char>, c: Cell)
    ensures
        listed_cells(rows, Some(q)).contains(c) <==> rows.contains(c) && cell_matches(c, q),
{
    lemma_matching_prefix(rows, q, rows.len() as int, c);
}

/// Once a cell is inserted, a search lists it exactly when it matches; once a
/// cell is deleted from a well-formed table, no search lists it.
pub proof fn lemma_search_after_change(rows: Seq<Cell>, p: int, cell: Cell, q: Seq<char>)
    ensures
        0 <= p <= rows.len() ==> (listed_cells(rows.insert(p, cell), Some(q)).contains(cell)
            <==> cell_matches(cell, q)),
        0 <= p < rows.len() && rows_wf(rows) ==> !listed_cells(rows.remove(p), Some(q)).contains(
            rows[p],
        ),
{
    if 0 <= p <= rows.len() {
        let after = rows.insert(p, cell);
        lemma_search_reflects_rows(after, q, cell);
        assert(after[p] == cell);
    }
    if 0 <= p < rows.len() && rows_wf(rows) {
        let after = rows.remove(p);
        lemma_search_reflects_rows(after, q, rows[p]);
        if after.contains(rows[p]) {
            let j = choose|j: int| 0 <= j < after.len() && after[j] == rows[p];
            let x = if j < p { j } else { j + 1 };
            assert(after[j] == rows[x]);
            assert(rows[x].row_id() == rows[p].row_id());
        }
    }
}

/// Once a cell is inserted, a search for a whole token of one of its indexed
/// fields lists it.
pub proof fn lemma_inserted_token_found(rows: Seq<Cell>, p: int, cell: Cell, q: Seq<char>, at: int)
    requires
        0 <= p <= rows.len(),
        q.len() > 0,
        forall|k: int| 0 <= k < q.len() ==> is_word_char(#[trigger] q[k]),
        starts_token(cell.manufacturer@, at, q) || starts_token(cell.model@, at, q)
            || starts_token(cell.form_factor@, at, q) || starts_token(cell.chemistry@, at, q),
    ensures
        listed_cells(rows.insert(p, cell), Some(q)).contains(cell),
{
    lemma_field_token_matches(cell, q, at);
    lemma_search_after_change(rows, p, cell, q);
}

/// Once a cell is updated, a search lists the new row exactly when it
/// matches, and never lists the row it replaced unless the two are equal.
pub proof fn lemma_search_after_update(rows: Seq<Cell>, p: int, q: int, cell: Cell, t: Seq<char>)
    requires
        rows_wf(rows),
        0 <= p < rows.len(),
        0 <= q < rows.len(),
    ensures
        listed_cells(rows.remove(p).insert(q, cell), Some(t)).contains(cell) <==> cell_matches(
            cell,
            t,
        ),
        rows[p] != cell ==> !listed_cells(rows.remove(p).insert(q, cell), Some(t)).contains(
            rows[p],
        ),
{
    let mid = rows.remove(p);
    let after = mid.insert(q, cell);
    lemma_search_after_change(mid, q, cell, t);
    lemma_search_after_change(rows, p, cell, t);
    lemma_search_reflects_rows(after, t, rows[p]);
    lemma_search_reflects_rows(mid, t, rows[p]);
    if rows[p] != cell && after.contains(rows[p]) {
        let j = choose|j: int| 0 <= j < after.len() && after[j] == rows[p];
        if j < q {
            assert(mid[j] == rows[p]);
        } else if j > q {
            assert(mid[j - 1] == rows[p]);
        }
        assert(mid.contains(rows[p]));
    }
}

/// After a cell is inserted, any cell with the same manufacturer and model is
/// refused by the key constraint.
pub proof fn lemma_key_taken_after_insert(rows: Seq<Cell>, p: int, first: Cell, second: Cell)
    requires
        0 <= p <= rows.len(),
        first.manufacturer@ == second.manufacturer@,
        first.model@ == second.model@,
    ensures
        has_row_key(rows.insert(p, first), second.row_key()),
{
    assert(rows.insert(p, first)[p].row_key() == second.row_key());
}

/// The reference catalog held in memory, each table ordered by its key.
pub struct Database {
    cells: Vec<Cell>,
    bms: Vec<Bms>,
    materials: Vec<Material>,
    shapes: Vec<Shape>,
}

/// What a catalog holds.
pub struct CatalogView {
    pub cells: Seq<Cell>,
    pub bms: Seq<Bms>,
    pub materials: Seq<Material>,
    pub shapes: Seq<Shape>,
}

impl View for Database {
    type V = CatalogView;

    closed spec fn view(&self) -> CatalogView {
        CatalogView {
            cells: self.cells@,
            bms: self.bms@,
            materials: self.materials@,
            shapes: self.shapes@,
        }
    }
}

impl Database {
    /// The constraints that every table keeps.
    pub open spec fn wf(&self) -> bool {
        rows_wf(self@.cells) && rows_wf(self@.bms) && rows_wf(self@.materials) && rows_wf(
            self@.shapes,
        )
    }

    /// An empty catalog.
    pub fn new() -> (r: Database)
        ensures
            r.wf(),
            r@.cells.len() == 0,
            r@.bms.len() == 0,
            r@.materials.len() == 0,
            r@.shapes.len() == 0,
    {
        Database { cells: Vec::new(), bms: Vec::new(), materials: Vec::new(), shapes: Vec::new() }
    }

    /// The number of cell rows.
    pub fn cell_count(&self) -> (r: usize)
        ensures
            r == self@.cells.len(),
    {
        self.cells.len()
    }

    /// Adds a cell. It is refused when its form factor or chemistry is not
    /// accepted, when its id is taken, or when another cell has its
    /// manufacturer and model.
    pub fn insert_cell(&mut self, cell: Cell) -> (r: Result<(), DatabaseError>)
        requires
            old(self).wf(),
        ensures
            final(self).wf(),
            r is Ok <==> cell.accepted() && !has_row_id(old(self)@.cells, cell.id)
                && !has_row_key(old(self)@.cells, cell.row_key()),
            r is Ok ==> exists|p: int|
                0 <= p <= old(self)@.cells.len() && final(self)@.cells
                    == old(self)@.cells.insert(p, cell),
            r is Err ==> final(self)@.cells == old(self)@.cells,
            final(self)@.materials == old(self)@.materials,
            final(self)@.shapes == old(self)@.shapes,
            final(self)@.bms == old(self)@.bms,
    {
        insert_row(&mut self.cells, cell)
    }

    /// Adds a material. It is refused when its kind is not accepted, when its
    /// id is taken, or when another material has its name and kind.
    pub fn insert_material(&mut self, material: Material) -> (r: Result<(), DatabaseError>)
        requires
            old(self).wf(),
        ensures
            final(self).wf(),
            r is Ok <==> material.accepted() && !has_row_id(old(self)@.materials, material.id)
                && !has_row_key(old(self)@.materials, material.row_key()),
            r is Ok ==> exists|p: int|
                0 <= p <= old(self)@.materials.len() && final(self)@.materials
                    == old(self)@.materials.insert(p, material),
            r is Err ==> final(self)@.materials == old(self)@.materials,
            final(self)@.cells == old(self)@.cells,
            final(self)@.shapes == old(self)@.shapes,
            final(self)@.bms == old(self)@.bms,
    {
        insert_row(&mut self.materials, material)
    }

    /// Adds a shape. It is refused when its category is not accepted, when its
    /// id is taken, or when another shape has its name.
    pub fn insert_shape(&mut self, shape: Shape) -> (r: Result<(), DatabaseError>)
        requires
            old(self).wf(),
        ensures
            final(self).wf(),
            r is Ok <==> shape.accepted() && !has_row_id(old(self)@.shapes, shape.id)
                && !has_row_key(old(self)@.shapes, shape.row_key()),
            r is Ok ==> exists|p: int|
                0 <= p <= old(self)@.shapes.len() && final(self)@.shapes
                    == old(self)@.shapes.insert(p, shape),
            r is Err ==> final(self)@.shapes == old(self)@.shapes,
            final(self)@.cells == old(self)@.cells,
            final(self)@.materials == old(self)@.materials,
            final(self)@.bms == old(self)@.bms,
    {
        insert_row(&mut self.shapes, shape)
    }

    /// Adds a battery-management board. It is refused when its id is taken,
    /// or when another board has its manufacturer and model.
    pub fn insert_bms(&mut self, board: Bms) -> (r: Result<(), DatabaseError>)
        requires
            old(self).wf(),
        ensures
            final(self).wf(),
            r is Ok <==> !has_row_id(old(self)@.bms, board.id) && !has_row_key(
                old(self)@.bms,
                board.row_key(),
            ),
            r is Ok ==> exists|p: int|
                0 <= p <= old(self)@.bms.len() && final(self)@.bms == old(self)@.bms.insert(
                    p,
                    board,
                ),
            r is Err ==> final(self)@.bms == old(self)@.bms,
            final(self)@.cells == old(self)@.cells,
            final(self)@.materials == old(self)@.materials,
            final(self)@.shapes == old(self)@.shapes,
    {
        insert_row(&mut self.bms, board)
    }

    /// Every battery-management board, ordered by manufacturer, then model.
    pub fn get_bms(&self) -> (r: Vec<Bms>)
        ensures
            r@ == self@.bms,
    {
        copy_rows(&self.bms)
    }

    /// Removes the cell with the given id, if there is one.
    pub fn delete_cell(&mut self, id: i64) -> (r: bool)
        requires
            old(self).wf(),
        ensures
            final(self).wf(),
            r == has_row_id(old(self)@.cells, id),
            r ==> exists|p: int|
                0 <= p < old(self)@.cells.len() && old(self)@.cells[p].id == id
                    && final(self)@.cells == old(self)@.cells.remove(p),
            !r ==> final(self)@.cells == old(self)@.cells,
            final(self)@.materials == old(self)@.materials,
            final(self)@.shapes == old(self)@.shapes,
            final(self)@.bms == old(self)@.bms,
    {
        remove_row(&mut self.cells, id)
    }

    /// Replaces the cell that has the id of `cell`. It is refused when no cell
    /// has that id, when a field is not accepted, or when another cell has
    /// the manufacturer and model of `cell`.
    pub fn update_cell(&mut self, cell: Cell) -> (r: Result<(), DatabaseError>)
        requires
            old(self).wf(),
        ensures
            final(self).wf(),
            r is Ok <==> has_row_id(old(self)@.cells, cell.id) && cell.accepted()
                && !key_taken_by_other(old(self)@.cells, cell),
            r is Ok ==> exists|p: int, q: int|
                0 <= p < old(self)@.cells.len() && old(self)@.cells[p].id == cell.id && 0 <= q
                    < old(self)@.cells.len() && final(self)@.cells == old(self)@.cells.remove(
                    p,
                ).insert(q, cell),
            r is Err ==> final(self)@.cells == old(self)@.cells,
            final(self)@.materials == old(self)@.materials,
            final(self)@.shapes == old(self)@.shapes,
            final(self)@.bms == old(self)@.bms,
    {
        if !cell.check_fields() {
            return Err(constraint_error("A field of the row holds a value that is not accepted"));
        }
        let n = self.cells.len();
        let mut i: usize = 0;
        while i < n
            invariant
                n == self.cells@.len(),
                i <= n,
                self@ == old(self)@,
                self.wf(),
                forall|j: int|
                    0 <= j < i ==> !(#[trigger] self.cells@[j].row_key() == cell.row_key()
                        && self.cells@[j].id != cell.id),
            decreases n - i,
        {
            if self.cells[i].key_equal(&cell) && self.cells[i].id != cell.id {
                return Err(constraint_error("The row key is already taken"));
            }
            i = i + 1;
        }
        let ghost before = self.cells@;
        if !remove_row(&mut self.cells, cell.id) {
            return Err(constraint_error("No row has this id"));
        }
        let ghost p = choose|p: int|
            0 <= p < before.len() && before[p].row_id() == cell.id && self.cells@ == before.remove(
                p,
            );
        proof {
            let mid = self.cells@;
            assert forall|j: int| 0 <= j < mid.len() implies #[trigger] mid[j].row_id() != cell.id
                && mid[j].row_key() != cell.row_key() by {
                let x = if j < p { j } else { j + 1 };
                assert(mid[j] == before[x]);
                assert(before[x].row_id() != before[p].row_id());
            }
            assert forall|j: int| 0 <= j < mid.len() implies #[trigger] mid[j].row_key() != cell.row_key() by {
                assert(mid[j].row_id() != cell.id);
            }
        }
        let r = insert_row(&mut self.cells, cell);
        proof {
            assert(r is Ok);
        }
        r
    }

    /// Whether a cell has the given id.
    pub fn has_cell(&self, id: i64) -> (r: bool)
        ensures
            r == has_row_id(self@.cells, id),
    {
        contains_id(&self.cells, id)
    }

    /// Whether a material has the given id.
    pub fn has_material(&self, id: i64) -> (r: bool)
        ensures
            r == has_row_id(self@.materials, id),
    {
        contains_id(&self.materials, id)
    }

    /// The cell with the given id, if there is one.
    pub fn get_cell_by_id(&self, id: i64) -> (r: Option<Cell>)
        ensures
            r is Some <==> has_row_id(self@.cells, id),
            r is Some ==> r->Some_0.id == id && self@.cells.contains(r->Some_0),
    {
        let n = self.cells.len();
        let mut i: usize = 0;
        while i < n
            invariant
                n == self.cells@.len(),
                i <= n,
                forall|j: int| 0 <= j < i ==> self.cells@[j].id != id,
            decreases n - i,
        {
            if self.cells[i].id_of() == id {
                let c = self.cells[i].duplicate();
                proof {
                    assert(self.cells@[i as int] == c);
                    assert(self.cells@[i as int].row_id() == id);
                }
                return Some(c);
            }
            i = i + 1;
        }
        None
    }

    /// Every cell without a filter, else the cells whose indexed fields match
    /// it; ordered by manufacturer, then model.
    pub fn get_cells(&self, search: Option<&str>) -> (r: Vec<Cell>)
        ensures
            r@ == listed_cells(
                self@.cells,
                match search {
                    Some(q) => Some(q@),
                    None => None,
                },
            ),
    {
        match search {
            None => copy_rows(&self.cells),
            Some(q) => {
                let mut out: Vec<Cell> = Vec::new();
                let mut i: usize = 0;
                while i < self.cells.len()
                    invariant
                        i <= self.cells@.len(),
                        out@ == matching_cells(self.cells@, q@, i as int),
                    decreases self.cells@.len() - i,
                {
                    if cell_matches_text(&self.cells[i], q) {
                        out.push(self.cells[i].duplicate());
                    }
                    i = i + 1;
                    proof {
                        assert(out@ =~= matching_cells(self.cells@, q@, i as int));
                    }
                }
                out
            },
        }
    }

    /// Fills an empty cell table with the baseline cells, and adds the
    /// baseline materials that do not clash with rows already there. A catalog
    /// that holds any cell is left as it is.
    pub fn seed_data(&mut self)
        requires
            old(self).wf(),
        ensures
            final(self).wf(),
            seeded(old(self)@, final(self)@),
    {
        if self.cells.len() > 0 {
            return;
        }
        let ghost start = self@;
        let mut k: usize = 0;
        while k < BASELINE_CELLS
            invariant
                k <= BASELINE_CELLS,
                self.wf(),
                self@.cells.len() == k,
                forall|x: int| 0 <= x < k ==> #[trigger] holds_baseline_cell(self@.cells, x),
                forall|j: int|
                    0 <= j < self@.cells.len() ==> baseline_cell_below(
                        #[trigger] self@.cells[j],
                        k as int,
                    ),
                self@.materials == start.materials,
                self@.shapes == start.shapes,
                self@.bms == start.bms,
            decreases BASELINE_CELLS - k,
        {
            let c = baseline_cell(k);
            let ghost before = self.cells@;
            proof {
                assert forall|j: int|
                    #![trigger before[j].row_id()]
                    #![trigger before[j].row_key()]
                    0 <= j < before.len() implies before[j].row_id()
                    != c.row_id() && before[j].row_key() != c.row_key() by {
                    let x = choose|x: int| 0 <= x < k && is_baseline_cell(before[j], x);
                    lemma_baseline_cells_differ(before[j], c, x, k as int);
                }
            }
            proof {
                assert(c.accepted());
                assert(!has_row_id(before, c.row_id()));
                assert(!has_row_key(before, c.row_key()));
            }
            let r = insert_row(&mut self.cells, c);
            proof {
                assert(r is Ok);
                let p = choose|p: int| 0 <= p <= before.len() && self.cells@ == before.insert(p, c);
                let after = self.cells@;
                assert(after[p] == c);
                assert forall|x: int| 0 <= x < k + 1 implies #[trigger] holds_baseline_cell(after, x) by {
                    if x < k {
                        assert(holds_baseline_cell(before, x));
                        let j = choose|j: int| 0 <= j < before.len() && is_baseline_cell(before[j], x);
                        if j < p {
                            assert(after[j] == before[j]);
                        } else {
                            assert(after[j + 1] == before[j]);
                        }
                    } else {
                        assert(is_baseline_cell(after[p], x));
                    }
                }
                assert forall|j: int| 0 <= j < after.len() implies baseline_cell_below(
                    #[trigger] after[j],
                    k + 1,
                ) by {
                    if j < p {
                        assert(after[j] == before[j]);
                    } else if j > p {
                        assert(after[j] == before[j - 1]);
                    } else {
                        assert(is_baseline_cell(after[j], k as int));
                    }
                }
            }
            k = k + 1;
        }
        let ghost cells_done = self@.cells;
        let mut k: usize = 0;
        while k < BASELINE_MATERIALS
            invariant
                k <= BASELINE_MATERIALS,
                self.wf(),
                self@.cells == cells_done,
                self@.shapes == start.shapes,
                self@.bms == start.bms,
                forall|j: int|
                    0 <= j < start.materials.len() ==> self@.materials.contains(
                        #[trigger] start.materials[j],
                    ),
                forall|x: int|
                    0 <= x < k && #[trigger] baseline_material_free(start.materials, x)
                        ==> holds_baseline_material(self@.materials, x),
                forall|j: int|
                    0 <= j < self@.materials.len() ==> start.materials.contains(
                        #[trigger] self@.materials[j],
                    ) || added_baseline_material(start.materials, self@.materials[j], k as int),
            decreases BASELINE_MATERIALS - k,
        {
            let m = baseline_material(k);
            let ghost before = self.materials@;
            proof {
                if baseline_material_free(start.materials, k as int) {
                    assert forall|j: int|
                        #![trigger before[j].row_id()]
                        #![trigger before[j].row_key()]
                        0 <= j < before.len() implies before[j].row_id() != m.row_id()
                        && before[j].row_key() != m.row_key() by {
                        if start.materials.contains(before[j]) {
                            let i = choose|i: int|
                                0 <= i < start.materials.len() && start.materials[i] == before[j];
                            assert(start.materials[i].row_id() != m.row_id());
                            assert(start.materials[i].row_key() != m.row_key());
                        } else {
                            let x = choose|x: int|
                                0 <= x < k && is_baseline_material(before[j], x)
                                    && baseline_material_free(start.materials, x);
                            lemma_baseline_materials_differ(before[j], m, x, k as int);
                        }
                    }
                } else {
                    if has_row_id(start.materials, m.id) {
                        let i = choose|i: int|
                            0 <= i < start.materials.len() && start.materials[i].row_id() == m.id;
                        assert(before.contains(start.materials[i]));
                        let j = choose|j: int| 0 <= j < before.len() && before[j] == start.materials[i];
                        assert(before[j].row_id() == m.id);
                    } else {
                        let i = choose|i: int|
                            0 <= i < start.materials.len() && start.materials[i].row_key()
                                == m.row_key();
                        assert(before.contains(start.materials[i]));
                        let j = choose|j: int| 0 <= j < before.len() && before[j] == start.materials[i];
                        assert(before[j].row_key() == m.row_key());
                    }
                }
            }
            let r = insert_row(&mut self.materials, m);
            proof {
                let after = self.materials@;
                if r is Ok {
                    assert(baseline_material_free(start.materials, k as int));
                    let p = choose|p: int|
                        0 <= p <= before.len() && self.materials@ == before.insert(p, m);
                    assert(after[p] == m);
                    assert forall|j: int|
                        0 <= j < start.materials.len() implies after.contains(
                        #[trigger] start.materials[j],
                    ) by {
                        let i = choose|i: int| 0 <= i < before.len() && before[i] == start.materials[j];
                        if i < p {
                            assert(after[i] == before[i]);
                        } else {
                            assert(after[i + 1] == before[i]);
                        }
                    }
                    assert forall|x: int|
                        0 <= x < k + 1 && #[trigger] baseline_material_free(start.materials, x)
                        implies holds_baseline_material(after, x) by {
                        if x < k {
                            assert(holds_baseline_material(before, x));
                            let j = choose|j: int|
                                0 <= j < before.len() && is_baseline_material(before[j], x);
                            if j < p {
                                assert(after[j] == before[j]);
                            } else {
                                assert(after[j + 1] == before[j]);
                            }
                        } else {
                            assert(is_baseline_material(after[p], x));
                        }
                    }
                    assert forall|j: int| 0 <= j < after.len() implies start.materials.contains(
                        #[trigger] after[j],
                    ) || added_baseline_material(start.materials, after[j], k + 1) by {
                        if j < p {
                            assert(after[j] == before[j]);
                        } else if j > p {
                            assert(after[j] == before[j - 1]);
                        } else {
                            assert(is_baseline_material(after[j], k as int));
                        }
                    }
                } else {
                    assert(!baseline_material_free(start.materials, k as int));
                }
            }
            k = k + 1;
        }
    }

    /// Every material, ordered by name.
    pub fn get_materials(&self) -> (r: Vec<Material>)
        ensures
            r@ == self@.materials,
    {
        copy_rows(&self.materials)
    }

    /// Every shape, ordered by name.
    pub fn get_shapes(&self) -> (r: Vec<Shape>)
        ensures
            r@ == self@.shapes,
    {
        copy_rows(&self.shapes)
    }
}

} // verus!
