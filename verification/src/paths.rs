//! The layout of the data directories below the program's base directory, and
//! which copy of an input workbook is used: a file in `data/inputs/`
//! overrides the factory file of the same name in `data/sources/`.

use vstd::prelude::*;

verus! {

/// The path components of a directory below the base directory.
pub open spec fn components(v: Seq<&str>) -> Seq<Seq<char>> {
    v.map_values(|c: &str| c@)
}

/// The data directory: `data`.
pub fn data_dir() -> (r: Vec<&'static str>)
    ensures
        components(r@) == seq!["data"@],
{
    let r = vec!["data"];
    assert(components(r@) =~= seq!["data"@]);
    r
}

/// A directory below the data directory.
fn data_subdir(name: &'static str) -> (r: Vec<&'static str>)
    ensures
        components(r@) == seq!["data"@, name@],
{
    let r = vec!["data", name];
    assert(components(r@) =~= seq!["data"@, name@]);
    r
}

/// The factory input files: `data/sources`.
pub fn sources_dir() -> (r: Vec<&'static str>)
    ensures
        components(r@) == seq!["data"@, "sources"@],
{
    data_subdir("sources")
}

/// The uploaded input files, which override the factory ones: `data/inputs`.
pub fn inputs_dir() -> (r: Vec<&'static str>)
    ensures
        components(r@) == seq!["data"@, "inputs"@],
{
    data_subdir("inputs")
}

/// The latest exports: `data/exports`.
pub fn exports_dir() -> (r: Vec<&'static str>)
    ensures
        components(r@) == seq!["data"@, "exports"@],
{
    data_subdir("exports")
}

/// The saved versions and past exports: `data/archive`.
pub fn archive_dir() -> (r: Vec<&'static str>)
    ensures
        components(r@) == seq!["data"@, "archive"@],
{
    data_subdir("archive")
}

/// The built web interface: `frontend/dist`.
pub fn frontend_dir() -> (r: Vec<&'static str>)
    ensures
        components(r@) == seq!["frontend"@, "dist"@],
{
    let r = vec!["frontend", "dist"];
    assert(components(r@) =~= seq!["frontend"@, "dist"@]);
    r
}

/// The four directories below `data` have pairwise different names, so an
/// upload into the inputs directory never replaces a factory file, an export
/// or an archived version.
pub proof fn lemma_data_dirs_distinct()
    ensures
        ({
            let subs = seq!["sources"@, "inputs"@, "exports"@, "archive"@];
            forall|i: int, j: int| 0 <= i < j < 4 ==> #[trigger] subs[i] != #[trigger] subs[j]
        }),
{
    reveal_strlit("sources");
    reveal_strlit("inputs");
    reveal_strlit("exports");
    reveal_strlit("archive");
    assert("sources"@[0] != "inputs"@[0]);
    assert("sources"@[0] != "exports"@[0]);
    assert("sources"@[0] != "archive"@[0]);
    assert("inputs"@[0] != "exports"@[0]);
    assert("inputs"@[0] != "archive"@[0]);
    assert("exports"@[0] != "archive"@[0]);
}

/// The data directory an input file is taken from.
#[derive(Clone, Copy, Debug, PartialEq, Eq, Structural)]
pub enum InputLocation {
    Inputs,
    Sources,
}

/// The message of an input file found in neither directory.
pub open spec fn spec_missing_input_message(filename: Seq<char>) -> Seq<char> {
    "File '"@ + filename + "' not found in data/inputs/ or data/sources/"@
}

/// Chooses where `filename` is read from, given whether it exists in the
/// inputs and in the sources directory: inputs first, then sources.
pub fn resolve_input(filename: &str, in_inputs: bool, in_sources: bool) -> (r: Result<InputLocation, String>)
    ensures
        in_inputs ==> r == Ok::<InputLocation, String>(InputLocation::Inputs),
        !in_inputs && in_sources ==> r == Ok::<InputLocation, String>(InputLocation::Sources),
        !in_inputs && !in_sources ==> (r matches Err(m) && m@ == spec_missing_input_message(filename@)),
{
    if in_inputs {
        return Ok(InputLocation::Inputs);
    }
    if in_sources {
        return Ok(InputLocation::Sources);
    }
    let mut m = String::from_str("File '");
    m.append(filename);
    m.append("' not found in data/inputs/ or data/sources/");
    Err(m)
}

} // verus!
