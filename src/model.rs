use vstd::prelude::*;

verus! {

/// A real number carried as the bit pattern of an IEEE-754 double.
///
/// The library never computes with these values; it only keeps them, so
/// holding the exact bits is enough to hand them back unchanged.
#[derive(Clone, Copy, Debug, PartialEq, Eq, Structural)]
pub struct Real {
    pub bits: u64,
}

impl Real {
    pub fn from_bits(bits: u64) -> (r: Real)
        ensures
            r.bits == bits,
    {
        Real { bits }
    }

    /// The double 0.0.
    pub fn zero() -> (r: Real)
        ensures
            r.bits == 0,
    {
        Real { bits: 0 }
    }

    /// The double 1.0.
    pub fn one() -> (r: Real)
        ensures
            r.bits == ONE_BITS,
    {
        Real { bits: ONE_BITS }
    }
}

/// The bit pattern of the double 1.0.
pub const ONE_BITS: u64 = 0x3FF0_0000_0000_0000;

/// The bit pattern of the double 100.0.
pub const HUNDRED_BITS: u64 = 0x4059_0000_0000_0000;

/// A point or a direction in space.
#[derive(Clone, Copy, Debug, PartialEq, Eq, Structural)]
pub struct Vector3(pub Real, pub Real, pub Real);

/// A rotation given by three angles.
#[derive(Clone, Copy, Debug, PartialEq, Eq, Structural)]
pub struct Euler(pub Real, pub Real, pub Real);

/// Position, rotation and scale of an object.
#[derive(Clone, Copy, Debug, PartialEq, Eq, Structural)]
pub struct Transform {
    pub position: Vector3,
    pub rotation: Euler,
    pub scale: Vector3,
}

/// One placed instance of a catalog cell.
#[derive(Clone, Debug, PartialEq)]
pub struct CellInstance {
    pub uuid: String,
    pub cell_id: i64,
    pub position: Vector3,
    pub rotation: Euler,
    pub custom_label: Option<String>,
    pub group_id: Option<String>,
}

/// An electrical link between two terminals of the scene.
#[derive(Clone, Debug, PartialEq)]
pub struct Connection {
    pub uuid: String,
    pub connection_type: String,
    pub source_uuid: String,
    pub source_terminal: String,
    pub target_uuid: String,
    pub target_terminal: String,
    pub material_id: Option<i64>,
    pub path: Option<Vec<Vector3>>,
}

/// A board, a mounting shape or a custom mesh placed in the scene.
#[derive(Clone, Debug, PartialEq)]
pub struct Component {
    pub uuid: String,
    pub component_type: String,
    pub reference_id: Option<i64>,
    pub position: Vector3,
    pub rotation: Euler,
    pub scale: Vector3,
    pub custom_mesh_path: Option<String>,
}

/// A named set of cells, components and other groups.
#[derive(Clone, Debug, PartialEq)]
pub struct Group {
    pub uuid: String,
    pub name: String,
    pub member_uuids: Vec<String>,
    pub color: Option<String>,
    pub locked: bool,
    pub visible: bool,
}

/// The design of one project. Each entity is keyed by its own uuid.
#[derive(Clone, Debug, PartialEq)]
pub struct Scene {
    pub cells: Vec<CellInstance>,
    pub connections: Vec<Connection>,
    pub components: Vec<Component>,
    pub groups: Vec<Group>,
}

/// Editor settings saved with a project.
#[derive(Clone, Debug, PartialEq)]
pub struct Settings {
    pub units: String,
    pub grid_size: Real,
    pub snap_enabled: bool,
    pub hex_packing_enabled: bool,
}

/// The viewpoint saved with a project.
#[derive(Clone, Copy, Debug, PartialEq, Eq, Structural)]
pub struct Camera {
    pub position: Vector3,
    pub target: Vector3,
    pub zoom: Real,
}

/// Name, timestamps and author of a project.
#[derive(Clone, Debug, PartialEq)]
pub struct ProjectMetadata {
    pub name: String,
    pub created: String,
    pub modified: String,
    pub author: Option<String>,
}

/// The unit that is saved to and loaded from disk.
#[derive(Clone, Debug, PartialEq)]
pub struct ProjectFile {
    pub version: String,
    pub metadata: ProjectMetadata,
    pub scene: Scene,
    pub settings: Settings,
    pub camera: Camera,
}

/// A failure of the catalog, with a readable message.
#[derive(Clone, Debug, PartialEq)]
pub struct DatabaseError {
    pub message: String,
}

/// A failure of project or export file handling, with a readable message.
#[derive(Clone, Debug, PartialEq)]
pub struct FilesystemError {
    pub message: String,
}

} // verus!
