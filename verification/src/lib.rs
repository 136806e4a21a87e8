//! Batch reconciliation core for a media capture directory.
//!
//! The library plans and accounts for two filesystem-reconciling passes:
//! converting raw FLV captures to MP4 containers, and merging separately
//! recorded audio/video pairs. All decision logic works on plain byte-string
//! file names and integer timestamps; the surrounding process performs the
//! actual directory listing, subprocess invocation and file moves.

pub mod archive;
pub mod bytes;
pub mod command;
pub mod convert;
pub mod fmt;
pub mod merge;
pub mod names;
pub mod watch;

use vstd::prelude::*;

verus! {

/// Seconds within which a freshly modified source is considered still
/// being written, and therefore skipped by a watch-mode pass.
pub const IN_PROGRESS_WINDOW_SECS: u64 = 60;

/// A source's last-modified time counts as "recently modified" when it lies
/// within the in-progress window before `now`. A modification time in the
/// future does not: such a file is processed, as the guard exists only to
/// avoid competing with an upstream recorder that wrote moments ago.
pub open spec fn spec_recently_modified(now: u64, mtime: u64) -> bool {
    mtime <= now && now - mtime < IN_PROGRESS_WINDOW_SECS
}

/// In-progress-write guard: decides whether a watch-mode pass must leave a
/// source alone for this iteration.
pub fn recently_modified(now: u64, mtime: u64) -> (r: bool)
    ensures
        r == spec_recently_modified(now, mtime),
{
    mtime <= now && now - mtime < IN_PROGRESS_WINDOW_SECS
}

} // verus!
