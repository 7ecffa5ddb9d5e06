//! The local-filesystem variant of the pipeline: the same scan and
//! dedup idea with a plain copy as transport. The caller does the
//! filesystem probing and the copy; what stands here decides whether
//! and where a file is copied.

use vstd::prelude::*;

use crate::date::{output_path_spec, Date};
use crate::scan::basename;

verus! {

/// Configuration of the local-copy run, as plain values.
pub struct Args {
    pub source_root: String,
    pub destination_root: String,
    pub dry_run: bool,
    pub queue_capacity: usize,
}

impl Args {
    /// The queue must have room for at least one item.
    pub open spec fn wf(&self) -> bool {
        self.queue_capacity >= 1
    }
}

/// The value a progress notification shows for `current` done out of
/// `total`: a percentage, except that a run of a single file starts at
/// zero rather than looking finished.
pub open spec fn progress_percentage_spec(current: int, total: int) -> int {
    if current == 1 && total == 1 {
        0
    } else {
        100 * current / total
    }
}

/// Compute the progress percentage for a notification.
pub fn progress_percentage(current: usize, total: usize) -> (r: i32)
    requires
        1 <= total <= i32::MAX,
        current <= total,
        100 * current <= i32::MAX,
    ensures
        r == progress_percentage_spec(current as int, total as int),
        0 <= r <= 100,
{
    if current == 1 && total == 1 {
        0
    } else {
        assert(100 * current <= 100 * total) by (nonlinear_arith)
            requires
                current <= total,
                0 <= current,
        ;
        assert(100 * (current as int) / (total as int) <= 100) by (nonlinear_arith)
            requires
                100 * current <= 100 * total,
                1 <= total,
        ;
        (100 * current as i32) / total as i32
    }
}

/// One pending copy: where a file is and where it belongs.
pub struct CopyOp {
    pub source_path: String,
    pub destination_path: String,
}

impl CopyOp {
    /// Decide whether a file needs copying: place it by its date under
    /// the destination root; a file already present there is skipped.
    /// The caller supplies the file's date and whether the destination
    /// path already exists.
    pub fn needs_copying(
        path: &str,
        date: &Date,
        destination_root: &String,
        destination_exists: bool,
    ) -> (r: Option<CopyOp>)
        ensures
            destination_exists ==> r is None,
            !destination_exists ==> r is Some && r.unwrap().source_path@ == path@
                && r.unwrap().destination_path@ == output_path_spec(
                destination_root@,
                *date,
                crate::scan::basename_spec(path@),
            ),
    {
        let name = basename(path);
        let destination_path = date.to_output_file(destination_root, name);
        if destination_exists {
            None
        } else {
            Some(CopyOp { source_path: path.to_owned(), destination_path })
        }
    }
}

} // verus!
