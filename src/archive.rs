use std::io::{Read, Write};
use vstd::prelude::*;

use crate::model::{
    Camera, ProjectFile, ProjectMetadata, Real, Scene, Settings, Vector3, HUNDRED_BITS, ONE_BITS,
};
use crate::scene::{issues_of, scene_issues, validate_scene, Violation};
use crate::text::{owned, same_text};

verus! {

/// The gzip stream that flate2 writes for some bytes at the default level.
pub uninterp spec fn gzip_of(data: Seq<u8>) -> Seq<u8>;

/// Relies on flate2's `GzEncoder` at `Compression::default()`: `write_all`
/// then `finish` give the gzip stream of the input. The encoder only passes
/// on errors of its inner writer, and writing into a `Vec<u8>` does not fail.
#[verifier::external_body]
fn gzip(data: &Vec<u8>) -> (r: Result<Vec<u8>, String>)
    ensures
        r is Ok,
        r->Ok_0@ == gzip_of(data@),
{
    let mut encoder = flate2::write::GzEncoder::new(Vec::new(), flate2::Compression::default());
    encoder.write_all(data).map_err(|e| format!("Failed to compress data: {}", e))?;
    encoder.finish().map_err(|e| format!("Failed to finish compression: {}", e))
}

/// Relies on flate2's `GzDecoder` and `read_to_end`: a stream that the encoder
/// wrote decodes to the bytes it was written from.
#[verifier::external_body]
fn gunzip(data: &Vec<u8>) -> (r: Result<Vec<u8>, String>)
    ensures
        forall|x: Seq<u8>| data@ == gzip_of(x) ==> (r is Ok && r->Ok_0@ == x),
{
    let mut decoder = flate2::read::GzDecoder::new(&data[..]);
    let mut out: Vec<u8> = Vec::new();
    decoder.read_to_end(&mut out).map_err(|e| format!("Failed to decompress data: {}", e))?;
    Ok(out)
}

/// The offset that RFC 3339 text carries for UTC.
pub open spec fn utc_suffix() -> Seq<char> {
    "+00:00"@
}

/// Relies on chrono's `Utc::now` and `to_rfc3339`: the current time as text,
/// which for UTC always ends with the offset `+00:00`.
#[verifier::external_body]
fn now_rfc3339() -> (r: String)
    ensures
        r@.len() >= 6,
        r@.subrange(r@.len() - 6, r@.len() as int) == utc_suffix(),
{
    chrono::Utc::now().to_rfc3339()
}

/// Why a project could not be saved or loaded.
#[derive(Clone, Debug, PartialEq)]
pub enum ArchiveError {
    /// The file or its directory could not be read or written.
    Io(String),
    /// The project could not be turned into text, or that text not compressed.
    Encode(String),
    /// The bytes are not a compressed stream.
    Decompress(String),
    /// The text does not describe a project.
    Decode(String),
    /// The project carries a version that this library does not read.
    UnsupportedVersion(String),
    /// The scene breaks its invariants; every violation is listed.
    Validation(Vec<Violation>),
}

impl ArchiveError {
    /// A readable message for this error.
    pub fn message(&self) -> (r: String)
        ensures
            match self {
                ArchiveError::Io(m) => r@ == m@,
                ArchiveError::Encode(m) => r@ == m@,
                ArchiveError::Decompress(m) => r@ == m@,
                ArchiveError::Decode(m) => r@ == m@,
                ArchiveError::UnsupportedVersion(v) => r@ == "Unsupported project version: "@ + v@,
                ArchiveError::Validation(_) => r@ == "The scene breaks its invariants"@,
            },
    {
        proof {
            reveal_strlit("Unsupported project version: ");
            reveal_strlit("The scene breaks its invariants");
        }
        match self {
            ArchiveError::Io(m) => m.clone(),
            ArchiveError::Encode(m) => m.clone(),
            ArchiveError::Decompress(m) => m.clone(),
            ArchiveError::Decode(m) => m.clone(),
            ArchiveError::UnsupportedVersion(v) => {
                let mut s = owned("Unsupported project version: ");
                s.append(v.as_str());
                s
            },
            ArchiveError::Validation(_) => owned("The scene breaks its invariants"),
        }
    }
}

/// The version that this library writes and reads.
pub open spec fn current_version() -> Seq<char> {
    "1.0.0"@
}

/// The name of the autosave file in the application's data directory.
pub open spec fn autosave_name() -> Seq<char> {
    "autosave.cellforge"@
}

/// A project as "new project" makes it, named `name` and stamped `now`.
pub open spec fn is_new_project(p: ProjectFile, name: Seq<char>, now: Seq<char>) -> bool {
    &&& p.version@ == current_version()
    &&& p.metadata.name@ == name
    &&& p.metadata.created@ == now
    &&& p.metadata.modified@ == now
    &&& p.metadata.author is None
    &&& p.scene.cells@.len() == 0
    &&& p.scene.connections@.len() == 0
    &&& p.scene.components@.len() == 0
    &&& p.scene.groups@.len() == 0
    &&& p.settings.units@ == "mm"@
    &&& p.settings.grid_size.bits == ONE_BITS
    &&& p.settings.snap_enabled
    &&& !p.settings.hex_packing_enabled
    &&& p.camera.position == Vector3(
        Real { bits: HUNDRED_BITS },
        Real { bits: HUNDRED_BITS },
        Real { bits: HUNDRED_BITS },
    )
    &&& p.camera.target == Vector3(Real { bits: 0 }, Real { bits: 0 }, Real { bits: 0 })
    &&& p.camera.zoom.bits == ONE_BITS
}

/// A new project has the current version and an empty scene, so it passes
/// the checks made before saving and after loading.
pub proof fn lemma_new_project_valid(p: ProjectFile, name: Seq<char>, now: Seq<char>)
    requires
        is_new_project(p, name, now),
    ensures
        p.version@ == current_version(),
        scene_issues(p.scene).len() == 0,
{
    assert(scene_issues(p.scene) =~= Seq::<crate::scene::Issue>::empty());
}

/// An empty project named `name`, created and modified at `now`.
pub fn new_project_at(name: String, now: String) -> (r: ProjectFile)
    ensures
        is_new_project(r, name@, now@),
{
    proof {
        reveal_strlit("1.0.0");
        reveal_strlit("mm");
    }
    let created = now.clone();
    ProjectFile {
        version: owned("1.0.0"),
        metadata: ProjectMetadata { name, created, modified: now, author: None },
        scene: Scene {
            cells: Vec::new(),
            connections: Vec::new(),
            components: Vec::new(),
            groups: Vec::new(),
        },
        settings: Settings {
            units: owned("mm"),
            grid_size: Real::one(),
            snap_enabled: true,
            hex_packing_enabled: false,
        },
        camera: Camera {
            position: Vector3(
                Real::from_bits(HUNDRED_BITS),
                Real::from_bits(HUNDRED_BITS),
                Real::from_bits(HUNDRED_BITS),
            ),
            target: Vector3(Real::zero(), Real::zero(), Real::zero()),
            zoom: Real::one(),
        },
    }
}

/// Makes and checks project files; file access itself is left to the caller.
pub struct Filesystem {
    pub data_dir: String,
}

impl Filesystem {
    pub fn new(data_dir: String) -> (r: Self)
        ensures
            r.data_dir == data_dir,
    {
        Filesystem { data_dir }
    }

    /// An empty project named `name`, stamped with the current time in UTC.
    pub fn create_new_project(&self, name: String) -> (r: ProjectFile)
        ensures
            is_new_project(r, name@, r.metadata.created@),
            r.metadata.created@.len() >= 6,
            r.metadata.created@.subrange(
                r.metadata.created@.len() - 6,
                r.metadata.created@.len() as int,
            ) == utc_suffix(),
    {
        new_project_at(name, now_rfc3339())
    }

    /// The file name of the autosave, to be placed in `data_dir`.
    pub fn autosave_file_name(&self) -> (r: String)
        ensures
            r@ == autosave_name(),
    {
        proof {
            reveal_strlit("autosave.cellforge");
        }
        owned("autosave.cellforge")
    }
}

/// Accepts a project version only if it is the one this library writes.
pub fn check_version(version: &String) -> (r: Result<(), ArchiveError>)
    ensures
        r is Ok <==> version@ == current_version(),
        r is Err ==> r == Err::<(), ArchiveError>(ArchiveError::UnsupportedVersion(*version)),
{
    proof {
        reveal_strlit("1.0.0");
    }
    if same_text(version.as_str(), "1.0.0") {
        Ok(())
    } else {
        Err(ArchiveError::UnsupportedVersion(version.clone()))
    }
}

/// Checks a project before it is written: its scene, with every violation
/// reported. The version is not looked at; it is checked on load.
pub fn check_before_save(p: &ProjectFile) -> (r: Result<(), ArchiveError>)
    ensures
        scene_issues(p.scene).len() == 0 ==> r is Ok,
        scene_issues(p.scene).len() > 0 ==> (match r {
            Err(ArchiveError::Validation(v)) => issues_of(v@) == scene_issues(p.scene),
            _ => false,
        }),
{
    let v = validate_scene(&p.scene);
    if v.len() == 0 {
        Ok(())
    } else {
        Err(ArchiveError::Validation(v))
    }
}

/// Checks a project after it is read: its version first, then its scene,
/// with every violation reported.
pub fn check_project(p: &ProjectFile) -> (r: Result<(), ArchiveError>)
    ensures
        p.version@ != current_version() ==> r == Err::<(), ArchiveError>(
            ArchiveError::UnsupportedVersion(p.version),
        ),
        p.version@ == current_version() && scene_issues(p.scene).len() == 0 ==> r is Ok,
        p.version@ == current_version() && scene_issues(p.scene).len() > 0 ==> (match r {
            Err(ArchiveError::Validation(v)) => issues_of(v@) == scene_issues(p.scene),
            _ => false,
        }),
{
    check_version(&p.version)?;
    let v = validate_scene(&p.scene);
    if v.len() == 0 {
        Ok(())
    } else {
        Err(ArchiveError::Validation(v))
    }
}

/// Compresses the encoded text of a project into the bytes of a project file.
pub fn pack(text: &Vec<u8>) -> (r: Result<Vec<u8>, ArchiveError>)
    ensures
        r is Ok,
        r->Ok_0@ == gzip_of(text@),
{
    match gzip(text) {
        Ok(b) => Ok(b),
        Err(m) => Err(ArchiveError::Encode(m)),
    }
}

/// Restores the encoded text of a project from the bytes of a project file;
/// bytes that `pack` wrote give back the text they were made from.
pub fn unpack(blob: &Vec<u8>) -> (r: Result<Vec<u8>, ArchiveError>)
    ensures
        forall|t: Seq<u8>| blob@ == gzip_of(t) ==> (r is Ok && r->Ok_0@ == t),
        r is Err ==> r->Err_0 is Decompress,
{
    match gunzip(blob) {
        Ok(t) => Ok(t),
        Err(m) => Err(ArchiveError::Decompress(m)),
    }
}

} // verus!
