//! The FLV-to-MP4 pass: reconciling source captures against already
//! converted outputs, the in-progress-write guard, the media tool's
//! argument list, and the per-job accounting that keeps one failure from
//! touching any other job.

use vstd::prelude::*;
use crate::bytes::clone_bytes;
use crate::names::{mp4_name, mp4_name_spec, stem_of, stem_spec, path_join};
use crate::archive::{
    conversion_dest_dir, dest_dir_text, valid_archive_date, ArchiveDate, MAX_ARCHIVE_MTIME_SECS,
};
use crate::fmt::{elapsed_text, format_elapsed_cs};
use crate::{spec_recently_modified, recently_modified};

verus! {

/// A source capture as the planner sees it: its file name within the
/// watched directory and its last-modified time in seconds since the epoch.
#[derive(Debug)]
pub struct SourceFile {
    pub name: Vec<u8>,
    pub mtime_secs: u64,
}

/// What one planning pass decides for one source file.
#[derive(Clone, Copy, Debug, PartialEq, Eq, Structural)]
pub enum ConvertAction {
    /// Convert the source: no output with its stem exists yet.
    Convert,
    /// Skip: an output with this stem already exists.
    SkipExisting,
    /// Skip for this pass only: the source was modified moments ago and may
    /// still be written (watch mode only).
    SkipInProgress,
}

/// The planning rule for one source: an existing output stem wins, then the
/// watch-mode in-progress guard, and otherwise the file is converted.
pub open spec fn spec_convert_action(
    name: Seq<u8>,
    mtime_secs: u64,
    existing_stems: Seq<Seq<u8>>,
    watch: bool,
    now: u64,
) -> ConvertAction {
    if existing_stems.contains(stem_spec(name)) {
        ConvertAction::SkipExisting
    } else if watch && spec_recently_modified(now, mtime_secs) {
        ConvertAction::SkipInProgress
    } else {
        ConvertAction::Convert
    }
}

/// Whether a stem stands among the existing output stems.
pub fn stems_contain(stems: &Vec<Vec<u8>>, x: &Vec<u8>) -> (r: bool)
    ensures
        r == stems.deep_view().contains(x@),
{
    let mut i: usize = 0;
    while i < stems.len()
        invariant
            i <= stems@.len(),
            forall|j: int| 0 <= j < i ==> stems.deep_view()[j] != x@,
        decreases stems@.len() - i,
    {
        if crate::bytes::bytes_eq(&stems[i], x) {
            proof {
                assert(stems.deep_view()[i as int] == x@);
            }
            return true;
        }
        proof {
            assert(stems.deep_view()[i as int] == stems@[i as int]@);
        }
        i += 1;
    }
    proof {
        assert forall|j: int| 0 <= j < stems.deep_view().len() implies stems.deep_view()[j] != x@
        by {}
    }
    false
}

/// Decides one source file.
pub fn convert_action(
    source: &SourceFile,
    existing_stems: &Vec<Vec<u8>>,
    watch: bool,
    now: u64,
) -> (r: ConvertAction)
    ensures
        r == spec_convert_action(
            source.name@,
            source.mtime_secs,
            existing_stems.deep_view(),
            watch,
            now,
        ),
{
    let stem = stem_of(&source.name);
    if stems_contain(existing_stems, &stem) {
        ConvertAction::SkipExisting
    } else if watch && recently_modified(now, source.mtime_secs) {
        ConvertAction::SkipInProgress
    } else {
        ConvertAction::Convert
    }
}

/// Plans one conversion pass: one decision per source, each depending only
/// on that source's name and modification time, the set of existing output
/// stems, the watch flag and the pass's clock reading.
pub fn plan_conversions(
    sources: &Vec<SourceFile>,
    existing_stems: &Vec<Vec<u8>>,
    watch: bool,
    now: u64,
) -> (r: Vec<ConvertAction>)
    ensures
        r@.len() == sources@.len(),
        forall|i: int|
            0 <= i < sources@.len() ==> r@[i] == spec_convert_action(
                sources@[i].name@,
                sources@[i].mtime_secs,
                existing_stems.deep_view(),
                watch,
                now,
            ),
{
    let mut r: Vec<ConvertAction> = Vec::new();
    let mut i: usize = 0;
    while i < sources.len()
        invariant
            i <= sources@.len(),
            r@.len() == i,
            forall|j: int|
                0 <= j < i ==> r@[j] == spec_convert_action(
                    sources@[j].name@,
                    sources@[j].mtime_secs,
                    existing_stems.deep_view(),
                    watch,
                    now,
                ),
        decreases sources@.len() - i,
    {
        let a = convert_action(&sources[i], existing_stems, watch, now);
        r.push(a);
        i += 1;
    }
    r
}

/// Law: the pass is idempotent. Consider a source a non-watch pass looked
/// at, and let the output stems later include everything that pass
/// converted (as they do once each produced file lands) as well as
/// everything that already existed. A second non-watch pass then decides
/// the already-exists skip for that source, whatever either pass's clock
/// read — it converts nothing and emits no other outcome.
pub proof fn lemma_second_pass_skips(
    name: Seq<u8>,
    mtime1: u64,
    mtime2: u64,
    now1: u64,
    now2: u64,
    stems1: Seq<Seq<u8>>,
    stems2: Seq<Seq<u8>>,
)
    requires
        spec_convert_action(name, mtime1, stems1, false, now1) == ConvertAction::Convert
            ==> stems2.contains(stem_spec(name)),
        stems1.contains(stem_spec(name)) ==> stems2.contains(stem_spec(name)),
    ensures
        spec_convert_action(name, mtime2, stems2, false, now2) == ConvertAction::SkipExisting,
{
    if !stems1.contains(stem_spec(name)) {
        assert(spec_convert_action(name, mtime1, stems1, false, now1) == ConvertAction::Convert);
    }
}

/// Law: the idempotency statement over a whole directory. If the second
/// pass's stems cover the first pass's conversions and everything that
/// already existed, every single decision of the second non-watch pass is
/// the already-exists skip.
pub proof fn lemma_second_pass_all_skip(
    sources: Seq<SourceFile>,
    stems1: Seq<Seq<u8>>,
    stems2: Seq<Seq<u8>>,
    now1: u64,
    now2: u64,
)
    requires
        forall|i: int|
            0 <= i < sources.len() && spec_convert_action(
                #[trigger] sources[i].name@,
                sources[i].mtime_secs,
                stems1,
                false,
                now1,
            ) == ConvertAction::Convert ==> stems2.contains(stem_spec(sources[i].name@)),
        forall|s: Seq<u8>| stems1.contains(s) ==> stems2.contains(s),
    ensures
        forall|i: int|
            0 <= i < sources.len() ==> spec_convert_action(
                #[trigger] sources[i].name@,
                sources[i].mtime_secs,
                stems2,
                false,
                now2,
            ) == ConvertAction::SkipExisting,
{
    assert forall|i: int| 0 <= i < sources.len() implies spec_convert_action(
        sources[i].name@,
        sources[i].mtime_secs,
        stems2,
        false,
        now2,
    ) == ConvertAction::SkipExisting by {
        lemma_second_pass_skips(
            sources[i].name@,
            sources[i].mtime_secs,
            sources[i].mtime_secs,
            now1,
            now2,
            stems1,
            stems2,
        );
    }
}

/// The `-y` flag.
pub open spec fn flag_y() -> Seq<u8> {
    seq![45u8, 121u8]
}

/// The `-i` flag.
pub open spec fn flag_i() -> Seq<u8> {
    seq![45u8, 105u8]
}

/// The `-vcodec` flag.
pub open spec fn flag_vcodec() -> Seq<u8> {
    seq![45u8, 118u8, 99u8, 111u8, 100u8, 101u8, 99u8]
}

/// The `-acodec` flag.
pub open spec fn flag_acodec() -> Seq<u8> {
    seq![45u8, 97u8, 99u8, 111u8, 100u8, 101u8, 99u8]
}

/// The codec argument `copy`: both passes remux without re-encoding.
pub open spec fn copy_arg() -> Seq<u8> {
    seq![99u8, 111u8, 112u8, 121u8]
}

/// The media tool's argument list for a lossless container conversion:
/// overwrite the output, read the source, copy both codecs, write the
/// output path.
pub open spec fn convert_args_spec(input: Seq<u8>, output: Seq<u8>) -> Seq<Seq<u8>> {
    seq![flag_y(), flag_i(), input, flag_vcodec(), copy_arg(), flag_acodec(), copy_arg(), output]
}

/// Builds the conversion argument list.
pub fn conversion_args(input: &Vec<u8>, output: &Vec<u8>) -> (r: Vec<Vec<u8>>)
    ensures
        r.deep_view() == convert_args_spec(input@, output@),
{
    let mut r: Vec<Vec<u8>> = Vec::new();
    r.push(vec![45u8, 121u8]);
    r.push(vec![45u8, 105u8]);
    r.push(clone_bytes(input));
    r.push(vec![45u8, 118u8, 99u8, 111u8, 100u8, 101u8, 99u8]);
    r.push(vec![99u8, 111u8, 112u8, 121u8]);
    r.push(vec![45u8, 97u8, 99u8, 111u8, 100u8, 101u8, 99u8]);
    r.push(vec![99u8, 111u8, 112u8, 121u8]);
    r.push(clone_bytes(output));
    proof {
        assert forall|k: int| 0 <= k < r@.len() implies #[trigger] r.deep_view()[k] =~= r@[k]@ by {}
        assert(r.deep_view() =~= convert_args_spec(input@, output@));
    }
    r
}

/// Everything the executor must still do once the tool reports success on
/// one conversion: where the fresh MP4 sits, where it must land, and
/// whether the source is then deleted.
pub struct ConversionFinish {
    /// File name of the MP4 the tool wrote, beside the source.
    pub temp_name: Vec<u8>,
    /// Directory the output must land in.
    pub dest_dir: Vec<u8>,
    /// Full destination path of the output.
    pub dest_path: Vec<u8>,
    /// Whether the destination directory is a date bucket that may need
    /// creating first.
    pub make_dest_dir: bool,
    /// Whether the source file is deleted after the move.
    pub remove_source: bool,
}

/// Computes the placement step for one successfully converted source. When
/// archiving, the destination is keyed by the machine-local calendar date
/// of the source's modification time; only the date's ranges are promised,
/// never which date the machine's time zone yields.
pub fn conversion_finish(
    name: &Vec<u8>,
    mtime_secs: u64,
    output_dir: &Vec<u8>,
    archive: bool,
    remove_source: bool,
) -> (r: ConversionFinish)
    requires
        mtime_secs <= MAX_ARCHIVE_MTIME_SECS,
    ensures
        r.temp_name@ == mp4_name_spec(stem_spec(name@)),
        !archive ==> r.dest_dir@ == output_dir@,
        archive ==> exists|d: ArchiveDate|
            valid_archive_date(d) && r.dest_dir@ == dest_dir_text(
                output_dir@,
                true,
                d.year as nat,
                d.month as nat,
                d.day as nat,
            ),
        r.dest_path@ == r.dest_dir@ + seq![47u8] + mp4_name_spec(stem_spec(name@)),
        r.make_dest_dir == archive,
        r.remove_source == remove_source,
{
    let stem = stem_of(name);
    let temp_name = mp4_name(&stem);
    let dest_dir = conversion_dest_dir(output_dir, archive, mtime_secs);
    let dest_path = path_join(&dest_dir, &temp_name);
    ConversionFinish {
        temp_name,
        dest_dir,
        dest_path,
        make_dest_dir: archive,
        remove_source,
    }
}

/// How one media tool invocation ended: success, or failure with the tool's
/// diagnostic stream.
#[derive(Debug)]
pub enum ToolOutcome {
    Succeeded,
    Failed(Vec<u8>),
}

/// The mathematical shape of a tool outcome.
pub enum ToolOutcomeView {
    Succeeded,
    Failed(Seq<u8>),
}

impl View for ToolOutcome {
    type V = ToolOutcomeView;

    open spec fn view(&self) -> ToolOutcomeView {
        match self {
            ToolOutcome::Succeeded => ToolOutcomeView::Succeeded,
            ToolOutcome::Failed(d) => ToolOutcomeView::Failed(d@),
        }
    }
}

/// The per-job outcome a pass reports for one conversion.
#[derive(Debug)]
pub enum RunReport {
    /// The conversion succeeded, with the elapsed time rendered to two
    /// decimal seconds.
    Converted { name: Vec<u8>, elapsed: Vec<u8> },
    /// The tool failed on this source; the diagnostics are its error stream
    /// verbatim, and the source is left in place.
    ConversionFailed { name: Vec<u8>, diagnostics: Vec<u8> },
}

/// The mathematical shape of a per-job report.
pub enum RunReportView {
    Converted { name: Seq<u8>, elapsed: Seq<u8> },
    ConversionFailed { name: Seq<u8>, diagnostics: Seq<u8> },
}

impl View for RunReport {
    type V = RunReportView;

    open spec fn view(&self) -> RunReportView {
        match self {
            RunReport::Converted { name, elapsed } => RunReportView::Converted {
                name: name@,
                elapsed: elapsed@,
            },
            RunReport::ConversionFailed { name, diagnostics } => RunReportView::ConversionFailed {
                name: name@,
                diagnostics: diagnostics@,
            },
        }
    }
}

/// What a job's report must be, as a function of that job's inputs alone.
pub open spec fn spec_conversion_report(
    name: Seq<u8>,
    outcome: ToolOutcomeView,
    elapsed_cs: u64,
) -> RunReportView {
    match outcome {
        ToolOutcomeView::Succeeded => RunReportView::Converted {
            name,
            elapsed: elapsed_text(elapsed_cs as nat),
        },
        ToolOutcomeView::Failed(diagnostics) => RunReportView::ConversionFailed {
            name,
            diagnostics,
        },
    }
}

/// Builds the report for one conversion job.
pub fn conversion_report(name: &Vec<u8>, outcome: &ToolOutcome, elapsed_cs: u64) -> (r: RunReport)
    ensures
        r@ == spec_conversion_report(name@, outcome@, elapsed_cs),
{
    match outcome {
        ToolOutcome::Succeeded => RunReport::Converted {
            name: clone_bytes(name),
            elapsed: format_elapsed_cs(elapsed_cs),
        },
        ToolOutcome::Failed(d) => RunReport::ConversionFailed {
            name: clone_bytes(name),
            diagnostics: clone_bytes(d),
        },
    }
}

/// Accounts for a whole batch: one report per job, each computed from that
/// job's name, outcome and timing alone, so a failure in any one job can
/// touch no other entry, and the batch is never cut short.
pub fn conversion_reports(
    names: &Vec<Vec<u8>>,
    outcomes: &Vec<ToolOutcome>,
    elapsed_cs: &Vec<u64>,
) -> (r: Vec<RunReport>)
    requires
        names@.len() == outcomes@.len(),
        names@.len() == elapsed_cs@.len(),
    ensures
        r@.len() == names@.len(),
        forall|i: int|
            0 <= i < names@.len() ==> r@[i]@ == spec_conversion_report(
                names@[i]@,
                outcomes@[i]@,
                elapsed_cs@[i],
            ),
{
    let mut r: Vec<RunReport> = Vec::new();
    let mut i: usize = 0;
    while i < names.len()
        invariant
            i <= names@.len(),
            names@.len() == outcomes@.len(),
            names@.len() == elapsed_cs@.len(),
            r@.len() == i,
            forall|j: int|
                0 <= j < i ==> r@[j]@ == spec_conversion_report(
                    names@[j]@,
                    outcomes@[j]@,
                    elapsed_cs@[j],
                ),
        decreases names@.len() - i,
    {
        let rep = conversion_report(&names[i], &outcomes[i], elapsed_cs[i]);
        r.push(rep);
        i += 1;
    }
    r
}

/// Law: batch resilience. A job's report is a function of that job's inputs
/// alone; in particular the job whose tool run failed gets the failure
/// report naming it and carrying the tool's diagnostics, while changing one
/// job's outcome leaves every other job's report exactly as it was.
pub proof fn lemma_batch_resilience(
    names: Seq<Seq<u8>>,
    outcomes1: Seq<ToolOutcomeView>,
    outcomes2: Seq<ToolOutcomeView>,
    elapsed_cs: Seq<u64>,
    j: int,
)
    requires
        outcomes1.len() == outcomes2.len(),
        0 <= j < outcomes1.len(),
        outcomes1.len() <= names.len(),
        outcomes1.len() <= elapsed_cs.len(),
        forall|i: int| 0 <= i < outcomes1.len() && i != j ==> outcomes1[i] == outcomes2[i],
        outcomes2[j] matches ToolOutcomeView::Failed(d),
    ensures
        forall|i: int|
            0 <= i < outcomes1.len() && i != j ==> spec_conversion_report(
                names[i],
                outcomes1[i],
                elapsed_cs[i],
            ) == spec_conversion_report(names[i], outcomes2[i], elapsed_cs[i]),
        spec_conversion_report(names[j], outcomes2[j], elapsed_cs[j])
            matches RunReportView::ConversionFailed { name, diagnostics } && name == names[j],
{
}

} // verus!
