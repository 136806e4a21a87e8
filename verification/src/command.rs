//! The already-parsed command surface: which pass a command word selects,
//! and folding a conversion command's argument words into a configuration.

use vstd::prelude::*;
use crate::bytes::{bytes_eq, clone_bytes};
use crate::fmt::{parse_u64_spec, parse_u64_or};
use crate::names::{convert_subdir, path_join, convert_subdir_bytes};

verus! {

/// The command word `flv2mp4`, selecting the conversion pass.
pub open spec fn convert_word() -> Seq<u8> {
    seq![102u8, 108u8, 118u8, 50u8, 109u8, 112u8, 52u8]
}

/// The command word `avm`, selecting the merge pass.
pub open spec fn merge_word() -> Seq<u8> {
    seq![97u8, 118u8, 109u8]
}

/// Which pass a command word selects.
#[derive(Clone, Copy, Debug, PartialEq, Eq, Structural)]
pub enum CommandKind {
    ConvertPass,
    MergePass,
    Unknown,
}

/// The classification rule for command words.
pub open spec fn spec_classify_command(word: Seq<u8>) -> CommandKind {
    if word == convert_word() {
        CommandKind::ConvertPass
    } else if word == merge_word() {
        CommandKind::MergePass
    } else {
        CommandKind::Unknown
    }
}

/// Classifies a command word; anything but the two known words is refused
/// by the caller as an unknown command.
pub fn classify_command(word: &Vec<u8>) -> (r: CommandKind)
    ensures
        r == spec_classify_command(word@),
{
    let cw: Vec<u8> = vec![102u8, 108u8, 118u8, 50u8, 109u8, 112u8, 52u8];
    let mw: Vec<u8> = vec![97u8, 118u8, 109u8];
    proof {
        assert(cw@ =~= convert_word());
        assert(mw@ =~= merge_word());
    }
    if bytes_eq(word, &cw) {
        CommandKind::ConvertPass
    } else if bytes_eq(word, &mw) {
        CommandKind::MergePass
    } else {
        CommandKind::Unknown
    }
}

/// A conversion pass's configuration, as the argument words leave it.
#[derive(Debug)]
pub struct ConvertConfig {
    /// Directory scanned for sources.
    pub cwd: Vec<u8>,
    /// Directory outputs land in.
    pub output_dir: Vec<u8>,
    /// Watch mode: repeat the pass on an interval and apply the
    /// in-progress-write guard.
    pub watch: bool,
    /// Archive outputs into date buckets.
    pub archive: bool,
    /// Delete each source after its conversion lands.
    pub remove_source: bool,
    /// Emit the in-progress skip notifications.
    pub debug: bool,
    /// Seconds between watch-mode passes.
    pub poll_interval_secs: u64,
}

/// The mathematical shape of a conversion configuration.
pub struct ConvertConfigView {
    pub cwd: Seq<u8>,
    pub output_dir: Seq<u8>,
    pub watch: bool,
    pub archive: bool,
    pub remove_source: bool,
    pub debug: bool,
    pub poll_interval_secs: u64,
}

impl View for ConvertConfig {
    type V = ConvertConfigView;

    open spec fn view(&self) -> ConvertConfigView {
        ConvertConfigView {
            cwd: self.cwd@,
            output_dir: self.output_dir@,
            watch: self.watch,
            archive: self.archive,
            remove_source: self.remove_source,
            debug: self.debug,
            poll_interval_secs: self.poll_interval_secs,
        }
    }
}

/// The configuration before any argument word: sources in the caller's
/// working directory, no output directory chosen, all flags off, a
/// thirty-second poll interval.
pub open spec fn default_convert_config(default_cwd: Seq<u8>) -> ConvertConfigView {
    ConvertConfigView {
        cwd: default_cwd,
        output_dir: Seq::empty(),
        watch: false,
        archive: false,
        remove_source: false,
        debug: false,
        poll_interval_secs: 30,
    }
}

/// The flag word `-c` (working directory).
pub open spec fn flag_cwd() -> Seq<u8> {
    seq![45u8, 99u8]
}

/// The flag word `-o` (output directory).
pub open spec fn flag_out() -> Seq<u8> {
    seq![45u8, 111u8]
}

/// The flag word `-w` (watch).
pub open spec fn flag_watch() -> Seq<u8> {
    seq![45u8, 119u8]
}

/// The flag word `-a` (archive).
pub open spec fn flag_archive() -> Seq<u8> {
    seq![45u8, 97u8]
}

/// The flag word `-r` (remove source).
pub open spec fn flag_remove() -> Seq<u8> {
    seq![45u8, 114u8]
}

/// The flag word `-d` (debug).
pub open spec fn flag_debug() -> Seq<u8> {
    seq![45u8, 100u8]
}

/// The flag word `-t` (poll interval).
pub open spec fn flag_interval() -> Seq<u8> {
    seq![45u8, 116u8]
}

/// Folds the argument words into a configuration, left to right. A value
/// flag takes the following word where one exists and is otherwise inert;
/// an unknown word is ignored; a malformed interval falls back to thirty
/// seconds.
pub open spec fn parse_convert_from(
    cfg: ConvertConfigView,
    args: Seq<Seq<u8>>,
    i: int,
) -> ConvertConfigView
    decreases args.len() - i,
{
    if i < 0 || i >= args.len() {
        cfg
    } else {
        let a = args[i];
        if a == flag_cwd() {
            if i + 1 < args.len() {
                parse_convert_from(ConvertConfigView { cwd: args[i + 1], ..cfg }, args, i + 2)
            } else {
                parse_convert_from(cfg, args, i + 1)
            }
        } else if a == flag_out() {
            if i + 1 < args.len() {
                parse_convert_from(
                    ConvertConfigView { output_dir: args[i + 1], ..cfg },
                    args,
                    i + 2,
                )
            } else {
                parse_convert_from(cfg, args, i + 1)
            }
        } else if a == flag_watch() {
            parse_convert_from(ConvertConfigView { watch: true, ..cfg }, args, i + 1)
        } else if a == flag_archive() {
            parse_convert_from(ConvertConfigView { archive: true, ..cfg }, args, i + 1)
        } else if a == flag_remove() {
            parse_convert_from(ConvertConfigView { remove_source: true, ..cfg }, args, i + 1)
        } else if a == flag_debug() {
            parse_convert_from(ConvertConfigView { debug: true, ..cfg }, args, i + 1)
        } else if a == flag_interval() {
            if i + 1 < args.len() {
                parse_convert_from(
                    ConvertConfigView {
                        poll_interval_secs: parse_u64_spec(args[i + 1], 30),
                        ..cfg
                    },
                    args,
                    i + 2,
                )
            } else {
                parse_convert_from(cfg, args, i + 1)
            }
        } else {
            parse_convert_from(cfg, args, i + 1)
        }
    }
}

/// The configuration a conversion command's arguments denote: the fold
/// over the words, and, where no output directory was named, the default
/// `flv-to-mp4` subdirectory of the working directory.
pub open spec fn spec_parse_convert_args(
    args: Seq<Seq<u8>>,
    default_cwd: Seq<u8>,
) -> ConvertConfigView {
    let c = parse_convert_from(default_convert_config(default_cwd), args, 0);
    if c.output_dir.len() == 0 {
        ConvertConfigView { output_dir: c.cwd + seq![47u8] + convert_subdir(), ..c }
    } else {
        c
    }
}

/// Reads a conversion command's argument words into its configuration.
pub fn parse_convert_args(args: &Vec<Vec<u8>>, default_cwd: &Vec<u8>) -> (r: ConvertConfig)
    ensures
        r@ == spec_parse_convert_args(args.deep_view(), default_cwd@),
{
    let f_c: Vec<u8> = vec![45u8, 99u8];
    let f_o: Vec<u8> = vec![45u8, 111u8];
    let f_w: Vec<u8> = vec![45u8, 119u8];
    let f_a: Vec<u8> = vec![45u8, 97u8];
    let f_r: Vec<u8> = vec![45u8, 114u8];
    let f_d: Vec<u8> = vec![45u8, 100u8];
    let f_t: Vec<u8> = vec![45u8, 116u8];
    let mut cfg = ConvertConfig {
        cwd: clone_bytes(default_cwd),
        output_dir: Vec::new(),
        watch: false,
        archive: false,
        remove_source: false,
        debug: false,
        poll_interval_secs: 30,
    };
    let ghost goal = parse_convert_from(
        default_convert_config(default_cwd@),
        args.deep_view(),
        0,
    );
    proof {
        assert(cfg@ == default_convert_config(default_cwd@));
    }
    let mut i: usize = 0;
    let n = args.len();
    while i < n
        invariant
            i <= n,
            n == args@.len(),
            args.deep_view().len() == args@.len(),
            forall|j: int| 0 <= j < args@.len() ==> args.deep_view()[j] == args@[j]@,
            f_c@ == flag_cwd(),
            f_o@ == flag_out(),
            f_w@ == flag_watch(),
            f_a@ == flag_archive(),
            f_r@ == flag_remove(),
            f_d@ == flag_debug(),
            f_t@ == flag_interval(),
            goal == parse_convert_from(cfg@, args.deep_view(), i as int),
        decreases n - i,
    {
        if bytes_eq(&args[i], &f_c) {
            if i + 1 < n {
                cfg.cwd = clone_bytes(&args[i + 1]);
                i += 2;
            } else {
                i += 1;
            }
        } else if bytes_eq(&args[i], &f_o) {
            if i + 1 < n {
                cfg.output_dir = clone_bytes(&args[i + 1]);
                i += 2;
            } else {
                i += 1;
            }
        } else if bytes_eq(&args[i], &f_w) {
            cfg.watch = true;
            i += 1;
        } else if bytes_eq(&args[i], &f_a) {
            cfg.archive = true;
            i += 1;
        } else if bytes_eq(&args[i], &f_r) {
            cfg.remove_source = true;
            i += 1;
        } else if bytes_eq(&args[i], &f_d) {
            cfg.debug = true;
            i += 1;
        } else if bytes_eq(&args[i], &f_t) {
            if i + 1 < n {
                cfg.poll_interval_secs = parse_u64_or(&args[i + 1], 30);
                i += 2;
            } else {
                i += 1;
            }
        } else {
            i += 1;
        }
    }
    if cfg.output_dir.len() == 0 {
        let sub = convert_subdir_bytes();
        cfg.output_dir = path_join(&cfg.cwd, &sub);
    }
    cfg
}

/// The directory a merge command works in: its first argument word, or the
/// caller's working directory when it has none.
pub open spec fn spec_merge_cwd(args: Seq<Seq<u8>>, default_cwd: Seq<u8>) -> Seq<u8> {
    if args.len() > 0 {
        args[0]
    } else {
        default_cwd
    }
}

/// Reads a merge command's working directory.
pub fn merge_cwd(args: &Vec<Vec<u8>>, default_cwd: &Vec<u8>) -> (r: Vec<u8>)
    ensures
        r@ == spec_merge_cwd(args.deep_view(), default_cwd@),
{
    if args.len() > 0 {
        proof {
            assert(args.deep_view()[0] == args@[0]@);
        }
        clone_bytes(&args[0])
    } else {
        clone_bytes(default_cwd)
    }
}

} // verus!
