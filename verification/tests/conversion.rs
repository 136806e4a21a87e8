use media_batch::archive::{bucket_name, conversion_dest_dir, dest_dir_for, local_date_of, ArchiveDate};
use media_batch::convert::{
    conversion_args, conversion_finish, conversion_report, conversion_reports, plan_conversions,
    ConvertAction, RunReport, SourceFile, ToolOutcome,
};
use media_batch::recently_modified;

fn src(name: &[u8], mtime_secs: u64) -> SourceFile {
    SourceFile { name: name.to_vec(), mtime_secs }
}

#[test]
fn guard_skips_a_file_modified_ten_seconds_ago() {
    let now: u64 = 1_700_000_000;
    let sources = vec![src(b"take.flv", now - 10)];
    let plan = plan_conversions(&sources, &vec![], true, now);
    assert_eq!(plan, vec![ConvertAction::SkipInProgress]);
}

#[test]
fn guard_passes_a_file_modified_two_minutes_ago() {
    let now: u64 = 1_700_000_000;
    let sources = vec![src(b"take.flv", now - 120)];
    let plan = plan_conversions(&sources, &vec![], true, now);
    assert_eq!(plan, vec![ConvertAction::Convert]);
}

#[test]
fn guard_boundary_is_sixty_seconds() {
    let now: u64 = 1_700_000_000;
    assert!(recently_modified(now, now - 59));
    assert!(!recently_modified(now, now - 60));
    // A modification time in the future is not "recent": the guard only
    // protects against a recorder that wrote moments ago.
    assert!(!recently_modified(now, now + 5));
}

#[test]
fn guard_is_off_outside_watch_mode() {
    let now: u64 = 1_700_000_000;
    let sources = vec![src(b"take.flv", now - 10)];
    let plan = plan_conversions(&sources, &vec![], false, now);
    assert_eq!(plan, vec![ConvertAction::Convert]);
}

#[test]
fn existing_stem_is_skipped() {
    let now: u64 = 1_700_000_000;
    let sources = vec![src(b"done.flv", now - 900), src(b"fresh.flv", now - 900)];
    let existing = vec![b"done".to_vec()];
    let plan = plan_conversions(&sources, &existing, false, now);
    assert_eq!(plan, vec![ConvertAction::SkipExisting, ConvertAction::Convert]);
}

#[test]
fn second_pass_converts_nothing() {
    let now: u64 = 1_700_000_000;
    let sources = vec![src(b"a.flv", now - 900), src(b"b.flv", now - 900)];
    let first = plan_conversions(&sources, &vec![], false, now);
    assert_eq!(first, vec![ConvertAction::Convert, ConvertAction::Convert]);
    // Both conversions land, so both stems now stand among the outputs.
    let existing = vec![b"a".to_vec(), b"b".to_vec()];
    let second = plan_conversions(&sources, &existing, false, now + 300);
    assert_eq!(second, vec![ConvertAction::SkipExisting, ConvertAction::SkipExisting]);
}

#[test]
fn conversion_argument_list_is_fixed() {
    let args = conversion_args(&b"/cap/take.flv".to_vec(), &b"/cap/take.mp4".to_vec());
    let expect: Vec<Vec<u8>> = vec![
        b"-y".to_vec(),
        b"-i".to_vec(),
        b"/cap/take.flv".to_vec(),
        b"-vcodec".to_vec(),
        b"copy".to_vec(),
        b"-acodec".to_vec(),
        b"copy".to_vec(),
        b"/cap/take.mp4".to_vec(),
    ];
    assert_eq!(args, expect);
}

#[test]
fn archive_bucket_is_unpadded() {
    let d = ArchiveDate { year: 2024, month: 3, day: 5 };
    assert_eq!(bucket_name(&d), b"2024-3-5".to_vec());
    assert_eq!(dest_dir_for(&b"/out".to_vec(), true, &d), b"/out/2024-3-5".to_vec());
    assert_eq!(dest_dir_for(&b"/out".to_vec(), false, &d), b"/out".to_vec());
}

#[test]
fn local_date_stays_in_calendar_ranges() {
    // 2024-03-05 around noon UTC: any machine time zone still lands in
    // March 2024.
    let d = local_date_of(1_709_640_000);
    assert_eq!(d.year, 2024);
    assert_eq!(d.month, 3);
    assert!(4 <= d.day && d.day <= 6);
}

#[test]
fn destination_without_archiving_is_the_output_dir() {
    let dest = conversion_dest_dir(&b"/out".to_vec(), false, 1_709_640_000);
    assert_eq!(dest, b"/out".to_vec());
}

#[test]
fn destination_with_archiving_is_a_date_bucket() {
    let dest = conversion_dest_dir(&b"/out".to_vec(), true, 1_709_640_000);
    let text = String::from_utf8(dest).unwrap();
    assert!(text.starts_with("/out/2024-3-"));
}

#[test]
fn finish_places_output_and_honors_flags() {
    let f = conversion_finish(&b"take.flv".to_vec(), 1_709_640_000, &b"/out".to_vec(), false, true);
    assert_eq!(f.temp_name, b"take.mp4".to_vec());
    assert_eq!(f.dest_dir, b"/out".to_vec());
    assert_eq!(f.dest_path, b"/out/take.mp4".to_vec());
    assert!(!f.make_dest_dir);
    assert!(f.remove_source);
}

#[test]
fn finish_with_archiving_buckets_by_date() {
    let f = conversion_finish(&b"take.flv".to_vec(), 1_709_640_000, &b"/out".to_vec(), true, false);
    let dir = String::from_utf8(f.dest_dir.clone()).unwrap();
    assert!(dir.starts_with("/out/2024-3-"));
    let path = String::from_utf8(f.dest_path).unwrap();
    assert_eq!(path, format!("{}/take.mp4", dir));
    assert!(f.make_dest_dir);
    assert!(!f.remove_source);
}

#[test]
fn one_failure_leaves_the_other_jobs_untouched() {
    let names = vec![b"a.flv".to_vec(), b"b.flv".to_vec(), b"c.flv".to_vec()];
    let outcomes = vec![
        ToolOutcome::Succeeded,
        ToolOutcome::Failed(b"moov atom not found".to_vec()),
        ToolOutcome::Succeeded,
    ];
    let reports = conversion_reports(&names, &outcomes, &vec![104, 95, 230]);
    assert_eq!(reports.len(), 3);
    let mut failures = 0;
    for (i, r) in reports.iter().enumerate() {
        match r {
            RunReport::Converted { name, elapsed } => {
                assert_eq!(*name, names[i]);
                assert!(i == 0 || i == 2);
                let shown = String::from_utf8(elapsed.clone()).unwrap();
                assert_eq!(shown, if i == 0 { "1.04s" } else { "2.30s" });
            }
            RunReport::ConversionFailed { name, diagnostics } => {
                failures += 1;
                assert_eq!(*name, b"b.flv".to_vec());
                assert_eq!(*diagnostics, b"moov atom not found".to_vec());
            }
        }
    }
    assert_eq!(failures, 1);
}

#[test]
fn failure_report_carries_the_diagnostics() {
    let r = conversion_report(
        &b"x.flv".to_vec(),
        &ToolOutcome::Failed(b"unsupported codec".to_vec()),
        50,
    );
    match r {
        RunReport::ConversionFailed { name, diagnostics } => {
            assert_eq!(name, b"x.flv".to_vec());
            assert_eq!(diagnostics, b"unsupported codec".to_vec());
        }
        _ => panic!("expected a failure report"),
    }
}
