use media_batch::command::{
    classify_command, merge_cwd, parse_convert_args, CommandKind,
};
use media_batch::fmt::{first_line, format_elapsed_cs, parse_u64_or, u64_dec};
use media_batch::names::{has_extension, mp4_name, path_join, stem_of};
use media_batch::watch::WatchState;

#[test]
fn stems_split_on_the_final_dot() {
    assert_eq!(stem_of(&b"video.flv".to_vec()), b"video".to_vec());
    assert_eq!(stem_of(&b"a.b.flv".to_vec()), b"a.b".to_vec());
    assert_eq!(stem_of(&b"nodot".to_vec()), b"nodot".to_vec());
    // A leading dot alone marks no extension.
    assert_eq!(stem_of(&b".hidden".to_vec()), b".hidden".to_vec());
}

#[test]
fn extensions_are_matched_exactly() {
    assert!(has_extension(&b"video.flv".to_vec(), &b"flv".to_vec()));
    assert!(!has_extension(&b"video.flv1".to_vec(), &b"flv".to_vec()));
    assert!(!has_extension(&b"video.mp4".to_vec(), &b"flv".to_vec()));
    assert!(!has_extension(&b"nodot".to_vec(), &b"flv".to_vec()));
    assert!(!has_extension(&b".flv".to_vec(), &b"flv".to_vec()));
}

#[test]
fn paths_join_with_a_slash() {
    assert_eq!(path_join(&b"/out".to_vec(), &b"a.mp4".to_vec()), b"/out/a.mp4".to_vec());
    assert_eq!(mp4_name(&b"take".to_vec()), b"take.mp4".to_vec());
}

#[test]
fn the_version_is_the_first_reported_line() {
    let out = b"ffmpeg version 6.0\nbuilt with gcc\n".to_vec();
    assert_eq!(first_line(&out), b"ffmpeg version 6.0".to_vec());
    let crlf = b"ffmpeg version 6.0\r\nbuilt\r\n".to_vec();
    assert_eq!(first_line(&crlf), b"ffmpeg version 6.0".to_vec());
    assert_eq!(first_line(&b"".to_vec()), b"".to_vec());
    assert_eq!(first_line(&b"one line only".to_vec()), b"one line only".to_vec());
}

#[test]
fn elapsed_times_show_two_decimals() {
    assert_eq!(format_elapsed_cs(1234), b"12.34s".to_vec());
    assert_eq!(format_elapsed_cs(5), b"0.05s".to_vec());
    assert_eq!(format_elapsed_cs(230), b"2.30s".to_vec());
    assert_eq!(u64_dec(0), b"0".to_vec());
    assert_eq!(u64_dec(907), b"907".to_vec());
}

#[test]
fn intervals_parse_with_a_fallback() {
    assert_eq!(parse_u64_or(&b"45".to_vec(), 30), 45);
    assert_eq!(parse_u64_or(&b"abc".to_vec(), 30), 30);
    assert_eq!(parse_u64_or(&b"".to_vec(), 30), 30);
    assert_eq!(parse_u64_or(&b"4x".to_vec(), 30), 30);
    assert_eq!(parse_u64_or(&b"18446744073709551615".to_vec(), 30), u64::MAX);
    assert_eq!(parse_u64_or(&b"18446744073709551616".to_vec(), 30), 30);
}

#[test]
fn command_words_select_the_pass() {
    assert_eq!(classify_command(&b"flv2mp4".to_vec()), CommandKind::ConvertPass);
    assert_eq!(classify_command(&b"avm".to_vec()), CommandKind::MergePass);
    assert_eq!(classify_command(&b"publish".to_vec()), CommandKind::Unknown);
}

#[test]
fn conversion_arguments_fold_into_a_configuration() {
    let args: Vec<Vec<u8>> = vec![
        b"-c".to_vec(),
        b"/cap".to_vec(),
        b"-o".to_vec(),
        b"/out".to_vec(),
        b"-w".to_vec(),
        b"-a".to_vec(),
        b"-r".to_vec(),
        b"-d".to_vec(),
        b"-t".to_vec(),
        b"60".to_vec(),
    ];
    let cfg = parse_convert_args(&args, &b"/default".to_vec());
    assert_eq!(cfg.cwd, b"/cap".to_vec());
    assert_eq!(cfg.output_dir, b"/out".to_vec());
    assert!(cfg.watch && cfg.archive && cfg.remove_source && cfg.debug);
    assert_eq!(cfg.poll_interval_secs, 60);
}

#[test]
fn the_output_directory_defaults_under_the_working_directory() {
    let cfg = parse_convert_args(&vec![b"-c".to_vec(), b"/cap".to_vec()], &b"/default".to_vec());
    assert_eq!(cfg.output_dir, b"/cap/flv-to-mp4".to_vec());
    let cfg2 = parse_convert_args(&vec![], &b"/default".to_vec());
    assert_eq!(cfg2.cwd, b"/default".to_vec());
    assert_eq!(cfg2.output_dir, b"/default/flv-to-mp4".to_vec());
    assert_eq!(cfg2.poll_interval_secs, 30);
    assert!(!cfg2.watch && !cfg2.archive && !cfg2.remove_source && !cfg2.debug);
}

#[test]
fn a_malformed_interval_falls_back() {
    let cfg = parse_convert_args(&vec![b"-t".to_vec(), b"soon".to_vec()], &b"/d".to_vec());
    assert_eq!(cfg.poll_interval_secs, 30);
    // A trailing value flag with nothing after it is inert.
    let cfg2 = parse_convert_args(&vec![b"-w".to_vec(), b"-o".to_vec()], &b"/d".to_vec());
    assert!(cfg2.watch);
    assert_eq!(cfg2.output_dir, b"/d/flv-to-mp4".to_vec());
}

#[test]
fn unknown_words_are_ignored() {
    let cfg = parse_convert_args(
        &vec![b"noise".to_vec(), b"-a".to_vec(), b"more".to_vec()],
        &b"/d".to_vec(),
    );
    assert!(cfg.archive);
    assert!(!cfg.watch);
}

#[test]
fn the_merge_directory_is_the_first_word_or_the_default() {
    assert_eq!(merge_cwd(&vec![b"/work".to_vec()], &b"/d".to_vec()), b"/work".to_vec());
    assert_eq!(merge_cwd(&vec![], &b"/d".to_vec()), b"/d".to_vec());
}

#[test]
fn the_watch_loop_counts_completed_passes() {
    let mut s = WatchState::new();
    assert_eq!(s.iterations, 0);
    s.completed_pass();
    s.completed_pass();
    assert_eq!(s.iterations, 2);
}
