//! Cell-level differences between two workbooks.

use vstd::prelude::*;

verus! {

/// Compares two workbooks cell by cell; the comparison reads files and lives
/// with the program.
pub struct WorkbookCompare;

/// One cell whose value differs between the source and the exported workbook.
#[derive(Clone, Debug, PartialEq, Eq)]
pub struct CellDiff {
    pub sheet: String,
    pub cell: String,
    pub source_value: String,
    pub exported_value: String,
}

} // verus!
