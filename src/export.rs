use std::collections::HashMap;
use vstd::prelude::*;
use vstd::std_specs::hash::obeys_key_model;

use crate::model::Real;
use crate::text::{owned, same_text};

verus! {

/// Options of a request to write the scene as STL.
pub struct STLExportOptions {
    pub selection: String,
    pub merge_geometries: bool,
    pub apply_transforms: bool,
    pub scale: Real,
    pub file_name: String,
}

/// Options of a request to write the scene as 3MF.
pub struct ThreeMFExportOptions {
    pub selection: String,
    pub include_colors: bool,
    pub include_materials: bool,
    pub separate_objects: bool,
    pub build_plate_origin: bool,
    pub file_name: String,
}

/// What an export hands back to its caller.
pub struct ExportResult {
    pub success: bool,
    pub data: Option<Vec<u8>>,
    pub error: Option<String>,
}

/// Validates export requests; it owns no geometry.
pub struct Exporter;

/// The message given for an empty output file name.
pub open spec fn empty_name_message() -> Seq<char> {
    "File name cannot be empty"@
}

/// The message given for a selection outside the accepted set.
pub open spec fn bad_selection_message() -> Seq<char> {
    "Invalid selection option"@
}

/// The selection scopes that an STL export accepts.
pub open spec fn is_stl_selection(s: Seq<char>) -> bool {
    s == "all"@ || s == "selected"@ || s == "holders-only"@ || s == "cells-only"@
}

/// The selection scopes that a 3MF export accepts.
pub open spec fn is_three_mf_selection(s: Seq<char>) -> bool {
    s == "all"@ || s == "selected"@
}

/// The outcome of validating an output name and a selection against an accepted set.
pub open spec fn validation_outcome(
    file_name: Seq<char>,
    selection_ok: bool,
    r: Result<(), String>,
) -> bool {
    if file_name.len() == 0 {
        r is Err && r->Err_0@ == empty_name_message()
    } else if !selection_ok {
        r is Err && r->Err_0@ == bad_selection_message()
    } else {
        r is Ok
    }
}

fn empty_name_error() -> (r: Result<(), String>)
    ensures
        r is Err && r->Err_0@ == empty_name_message(),
{
    proof {
        reveal_strlit("File name cannot be empty");
    }
    Err(owned("File name cannot be empty"))
}

fn bad_selection_error() -> (r: Result<(), String>)
    ensures
        r is Err && r->Err_0@ == bad_selection_message(),
{
    proof {
        reveal_strlit("Invalid selection option");
    }
    Err(owned("Invalid selection option"))
}

impl Exporter {
    pub fn new() -> (r: Self) {
        Exporter
    }

    /// Rejects an empty file name, then a selection outside all, selected,
    /// holders-only and cells-only.
    pub fn validate_stl_options(&self, options: &STLExportOptions) -> (r: Result<(), String>)
        ensures
            validation_outcome(options.file_name@, is_stl_selection(options.selection@), r),
    {
        if options.file_name.unicode_len() == 0 {
            return empty_name_error();
        }
        let s = options.selection.as_str();
        proof {
            reveal_strlit("all");
            reveal_strlit("selected");
            reveal_strlit("holders-only");
            reveal_strlit("cells-only");
        }
        if same_text(s, "all") || same_text(s, "selected") || same_text(s, "holders-only")
            || same_text(s, "cells-only") {
            Ok(())
        } else {
            bad_selection_error()
        }
    }

    /// Rejects an empty file name, then a selection other than all and selected.
    pub fn validate_three_mf_options(&self, options: &ThreeMFExportOptions) -> (r: Result<
        (),
        String,
    >)
        ensures
            validation_outcome(
                options.file_name@,
                is_three_mf_selection(options.selection@),
                r,
            ),
    {
        if options.file_name.unicode_len() == 0 {
            return empty_name_error();
        }
        let s = options.selection.as_str();
        proof {
            reveal_strlit("all");
            reveal_strlit("selected");
        }
        if same_text(s, "all") || same_text(s, "selected") {
            Ok(())
        } else {
            bad_selection_error()
        }
    }

    /// The formats that can be exported, in this order: stl, 3mf.
    pub fn get_supported_formats(&self) -> (r: Vec<String>)
        ensures
            r@.len() == 2,
            r@[0]@ == "stl"@,
            r@[1]@ == "3mf"@,
    {
        proof {
            reveal_strlit("stl");
            reveal_strlit("3mf");
        }
        let mut v: Vec<String> = Vec::new();
        v.push(owned("stl"));
        v.push(owned("3mf"));
        v
    }

    /// The file extension of each exportable format.
    pub fn get_format_extensions(&self) -> (r: HashMap<String, String>)
        ensures
            obeys_key_model::<String>() ==> r@.len() == 2,
            obeys_key_model::<String>() ==> (forall|k: String|
                #[trigger] r@.contains_key(k) ==> (k@ == "stl"@ || k@ == "3mf"@) && r@[k]@ == k@),
            obeys_key_model::<String>() ==> (exists|k: String|
                #[trigger] r@.contains_key(k) && k@ == "stl"@),
            obeys_key_model::<String>() ==> (exists|k: String|
                #[trigger] r@.contains_key(k) && k@ == "3mf"@),
    {
        proof {
            reveal_strlit("stl");
            reveal_strlit("3mf");
        }
        let mut m: HashMap<String, String> = HashMap::new();
        let k1 = owned("stl");
        let v1 = owned("stl");
        let k2 = owned("3mf");
        let v2 = owned("3mf");
        proof {
            assert(k1@[0] != k2@[0]);
            assert(k1@ != k2@);
        }
        let ghost g1 = k1;
        let ghost g2 = k2;
        m.insert(k1, v1);
        m.insert(k2, v2);
        proof {
            if obeys_key_model::<String>() {
                assert(m@.contains_key(g1));
                assert(m@.contains_key(g2));
            }
        }
        m
    }
}

} // verus!
