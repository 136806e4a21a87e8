//! Archival placement: a finished conversion may be filed into a
//! subdirectory named by the source's last-modified calendar date rather
//! than the top of the output directory.

use vstd::prelude::*;
use crate::fmt::{dec_rep, push_dec, u64_dec};
use chrono::Datelike;

verus! {

/// Latest modification time the archival date conversion accepts:
/// 9999-12-31T23:59:59 UTC as seconds since the epoch. Beyond it the
/// calendar conversion is refused rather than attempted.
pub const MAX_ARCHIVE_MTIME_SECS: u64 = 253402300799;

/// A calendar date as the plain values archival bucketing reads.
#[derive(Clone, Copy, Debug, PartialEq, Eq, Structural)]
pub struct ArchiveDate {
    pub year: u64,
    pub month: u8,
    pub day: u8,
}

/// The ranges every date handed out by the calendar conversion satisfies.
/// The year bounds follow from the accepted modification-time range, padded
/// by a day on both sides for the machine's time-zone offset.
pub open spec fn valid_archive_date(d: ArchiveDate) -> bool {
    1969 <= d.year <= 10000 && 1 <= d.month <= 12 && 1 <= d.day <= 31
}

/// Relies on chrono: `DateTime::<Local>::from(SystemTime)` turns a
/// modification time into the machine's local calendar date, and the
/// `Datelike` accessors `year`, `month` and `day` read it, with `month` in
/// 1..=12 and `day` in 1..=31 as their documentation states. The result
/// depends on the machine's time zone, so only those ranges are promised.
#[verifier::external_body]
pub fn local_date_of(epoch_secs: u64) -> (r: ArchiveDate)
    requires
        epoch_secs <= MAX_ARCHIVE_MTIME_SECS,
    ensures
        valid_archive_date(r),
{
    let st = std::time::UNIX_EPOCH + std::time::Duration::from_secs(epoch_secs);
    let dt: chrono::DateTime<chrono::Local> = chrono::DateTime::from(st);
    ArchiveDate { year: dt.year() as u64, month: dt.month() as u8, day: dt.day() as u8 }
}

/// The archive bucket directory name for a date: year, month and day in
/// plain decimal joined by `-`, without zero padding — `2024-3-5`.
pub open spec fn bucket_text(year: nat, month: nat, day: nat) -> Seq<u8> {
    dec_rep(year) + seq![45u8] + dec_rep(month) + seq![45u8] + dec_rep(day)
}

/// Renders a date's archive bucket directory name.
pub fn bucket_name(d: &ArchiveDate) -> (r: Vec<u8>)
    ensures
        r@ == bucket_text(d.year as nat, d.month as nat, d.day as nat),
{
    let mut r = u64_dec(d.year);
    r.push(45u8);
    push_dec(d.month as u64, &mut r);
    r.push(45u8);
    push_dec(d.day as u64, &mut r);
    proof {
        assert(r@ =~= bucket_text(d.year as nat, d.month as nat, d.day as nat));
    }
    r
}

/// Where a finished conversion lands: the output directory itself, or, when
/// archiving, its date-bucket subdirectory for the given date.
pub open spec fn dest_dir_text(
    output_dir: Seq<u8>,
    archive: bool,
    year: nat,
    month: nat,
    day: nat,
) -> Seq<u8> {
    if archive {
        output_dir + seq![47u8] + bucket_text(year, month, day)
    } else {
        output_dir
    }
}

/// Computes the destination directory for a given archival date.
pub fn dest_dir_for(output_dir: &Vec<u8>, archive: bool, d: &ArchiveDate) -> (r: Vec<u8>)
    ensures
        r@ == dest_dir_text(output_dir@, archive, d.year as nat, d.month as nat, d.day as nat),
{
    if archive {
        let bucket = bucket_name(d);
        crate::names::path_join(output_dir, &bucket)
    } else {
        let mut r: Vec<u8> = Vec::new();
        crate::bytes::push_all(&mut r, output_dir);
        proof {
            assert(r@ =~= output_dir@);
        }
        r
    }
}

/// Computes the destination directory from the source's modification time:
/// the machine's local calendar date keys the bucket, so when archiving only
/// the date ranges are promised, never which date came back.
pub fn conversion_dest_dir(output_dir: &Vec<u8>, archive: bool, mtime_secs: u64) -> (r: Vec<u8>)
    requires
        mtime_secs <= MAX_ARCHIVE_MTIME_SECS,
    ensures
        !archive ==> r@ == output_dir@,
        archive ==> exists|d: ArchiveDate|
            valid_archive_date(d) && r@ == dest_dir_text(
                output_dir@,
                true,
                d.year as nat,
                d.month as nat,
                d.day as nat,
            ),
{
    if archive {
        let d = local_date_of(mtime_secs);
        let r = dest_dir_for(output_dir, true, &d);
        proof {
            assert(valid_archive_date(d) && r@ == dest_dir_text(
                output_dir@,
                true,
                d.year as nat,
                d.month as nat,
                d.day as nat,
            ));
        }
        r
    } else {
        let mut r: Vec<u8> = Vec::new();
        crate::bytes::push_all(&mut r, output_dir);
        proof {
            assert(r@ =~= output_dir@);
        }
        r
    }
}

} // verus!
