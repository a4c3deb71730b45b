use vstd::prelude::*;
use std::path::PathBuf;

verus! {

/// `std::path::PathBuf`, carried through the library unopened.
#[verifier::external_type_specification]
#[verifier::external_body]
pub struct ExPathBuf(PathBuf);

/// `PathBuf::clone`. Claimed: it returns a copy of the path, equal to it.
pub assume_specification[ <PathBuf as Clone>::clone ](p: &PathBuf) -> (r: PathBuf)
    ensures
        r == *p,
;

/// What the scan decided for one image.
#[derive(Clone, Debug)]
pub enum ScanStatus {
    PendingCopy { year: i32, month: u32, dest_path: PathBuf },
    PendingMove { year: i32, month: u32, dest_path: PathBuf },
    DuplicateSkipped,
    NoDateSkipped,
    Error(String),
}

/// One scanned image and what will be done with it.
#[derive(Clone, Debug)]
pub struct ScanResult {
    pub src: PathBuf,
    pub status: ScanStatus,
}

/// Messages sent from the worker back to the user interface.
#[derive(Debug)]
pub enum WorkerMsg {
    ScanProgress { current: usize, total: usize, file: String },
    ScanDone(Vec<ScanResult>),
    SortProgress { current: usize, total: usize, file: String },
    SortDone { moved: usize, skipped: usize, errors: usize },
    Error(String),
}

} // verus!
