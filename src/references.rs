use vstd::prelude::*;

use crate::catalog::{has_row_id, Database};
use crate::model::Scene;

verus! {

/// A catalog id named by a scene that the catalog does not hold. The design
/// keeps the id; the warning only reports it.
#[derive(Clone, Debug, PartialEq)]
pub enum CatalogWarning {
    /// A cell instance names a cell id that the catalog lacks.
    MissingCell { instance: String, cell_id: i64 },
    /// A connection names a material id that the catalog lacks.
    MissingMaterial { connection: String, material_id: i64 },
}

/// What a warning says, over the texts of its uuids.
pub ghost enum Notice {
    MissingCell(Seq<char>, i64),
    MissingMaterial(Seq<char>, i64),
}

impl View for CatalogWarning {
    type V = Notice;

    open spec fn view(&self) -> Notice {
        match self {
            CatalogWarning::MissingCell { instance, cell_id } => Notice::MissingCell(
                instance@,
                *cell_id,
            ),
            CatalogWarning::MissingMaterial { connection, material_id } => Notice::MissingMaterial(
                connection@,
                *material_id,
            ),
        }
    }
}

/// The notices that a list of warnings states, in order.
pub open spec fn notices_of(v: Seq<CatalogWarning>) -> Seq<Notice> {
    v.map_values(|w: CatalogWarning| w@)
}

/// The missing cells among the first `n` cell instances.
pub open spec fn missing_cells(s: Scene, db: Database, n: int) -> Seq<Notice>
    decreases n,
{
    if n <= 0 || n > s.cells@.len() {
        Seq::empty()
    } else {
        let c = s.cells@[n - 1];
        let here = if has_row_id(db@.cells, c.cell_id) {
            Seq::empty()
        } else {
            seq![Notice::MissingCell(c.uuid@, c.cell_id)]
        };
        missing_cells(s, db, n - 1) + here
    }
}

/// The missing materials among the first `n` connections.
pub open spec fn missing_materials(s: Scene, db: Database, n: int) -> Seq<Notice>
    decreases n,
{
    if n <= 0 || n > s.connections@.len() {
        Seq::empty()
    } else {
        let c = s.connections@[n - 1];
        let here = match c.material_id {
            Some(m) => if has_row_id(db@.materials, m) {
                Seq::empty()
            } else {
                seq![Notice::MissingMaterial(c.uuid@, m)]
            },
            None => Seq::empty(),
        };
        missing_materials(s, db, n - 1) + here
    }
}

/// Lists the catalog ids that a scene names and the catalog lacks: cell
/// instances first, then connection materials, each in scene order.
pub fn catalog_warnings(s: &Scene, db: &Database) -> (r: Vec<CatalogWarning>)
    ensures
        notices_of(r@) == missing_cells(*s, *db, s.cells@.len() as int) + missing_materials(
            *s,
            *db,
            s.connections@.len() as int,
        ),
{
    let mut out: Vec<CatalogWarning> = Vec::new();
    let mut i: usize = 0;
    proof {
        assert(notices_of(out@) =~= missing_cells(*s, *db, 0));
    }
    while i < s.cells.len()
        invariant
            i <= s.cells@.len(),
            notices_of(out@) == missing_cells(*s, *db, i as int),
        decreases s.cells@.len() - i,
    {
        let c = &s.cells[i];
        let ghost before = notices_of(out@);
        if !db.has_cell(c.cell_id) {
            out.push(CatalogWarning::MissingCell { instance: c.uuid.clone(), cell_id: c.cell_id });
        }
        proof {
            assert(notices_of(out@) =~= missing_cells(*s, *db, i + 1));
        }
        i = i + 1;
    }
    let ghost cells_part = notices_of(out@);
    let mut i: usize = 0;
    proof {
        assert(notices_of(out@) =~= cells_part + missing_materials(*s, *db, 0));
    }
    while i < s.connections.len()
        invariant
            i <= s.connections@.len(),
            cells_part == missing_cells(*s, *db, s.cells@.len() as int),
            notices_of(out@) == cells_part + missing_materials(*s, *db, i as int),
        decreases s.connections@.len() - i,
    {
        let c = &s.connections[i];
        let ghost before = out@;
        match c.material_id {
            Some(m) => {
                if !db.has_material(m) {
                    out.push(
                        CatalogWarning::MissingMaterial { connection: c.uuid.clone(), material_id: m },
                    );
                }
            },
            None => {},
        }
        proof {
            let here = match c.material_id {
                Some(m) => if has_row_id(db@.materials, m) {
                    Seq::<Notice>::empty()
                } else {
                    seq![Notice::MissingMaterial(c.uuid@, m)]
                },
                None => Seq::<Notice>::empty(),
            };
            assert(notices_of(out@) =~= notices_of(before) + here);
            assert(missing_materials(*s, *db, i + 1) == missing_materials(*s, *db, i as int) + here);
            assert(notices_of(out@) =~= cells_part + missing_materials(*s, *db, i + 1));
        }
        i = i + 1;
    }
    out
}

} // verus!
