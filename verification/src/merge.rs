//! The audio/video merge pass: classifying a directory's files by the
//! pairing markers, matching each audio half to a video half, naming the
//! merged output, and clearing a stale leftover before the tool runs.

use vstd::prelude::*;
use crate::bytes::{
    clone_bytes, contains_bytes, contains_pat, is_match_at, lemma_match_prefix, lemma_match_skip,
    lemma_replace_all_clean_prefix, lemma_replace_all_no_match, push_all, replace_all,
    replace_all_bytes,
};
use crate::names::{
    audio_marker, audio_marker_bytes, audio_marker_dot, audio_marker_dot_bytes, dot, dot_bytes,
    stem_of, stem_spec, video_marker, video_marker_bytes, video_marker_dot,
    video_marker_dot_bytes,
};

verus! {

/// A name counts as an audio half when it holds `_audio.`.
pub open spec fn is_audio_name(name: Seq<u8>) -> bool {
    contains_pat(name, audio_marker_dot())
}

/// A name counts as a video half when it holds `_video.` and is not an
/// audio half (classification tries the audio rule first).
pub open spec fn is_video_name(name: Seq<u8>) -> bool {
    !is_audio_name(name) && contains_pat(name, video_marker_dot())
}

/// Splits a directory listing into audio halves and video halves, each in
/// enumeration order; names carrying neither marker are dropped.
pub fn classify_media(names: &Vec<Vec<u8>>) -> (r: (Vec<Vec<u8>>, Vec<Vec<u8>>))
    ensures
        r.0.deep_view() == names.deep_view().filter(|n: Seq<u8>| is_audio_name(n)),
        r.1.deep_view() == names.deep_view().filter(|n: Seq<u8>| is_video_name(n)),
{
    let audio_mark = audio_marker_dot_bytes();
    let video_mark = video_marker_dot_bytes();
    let mut audios: Vec<Vec<u8>> = Vec::new();
    let mut videos: Vec<Vec<u8>> = Vec::new();
    let mut i: usize = 0;
    proof {
        assert(names.deep_view().take(0) =~= Seq::<Seq<u8>>::empty());
        reveal(Seq::filter);
    }
    while i < names.len()
        invariant
            i <= names@.len(),
            names.deep_view().len() == names@.len(),
            forall|j: int| 0 <= j < names@.len() ==> names.deep_view()[j] == names@[j]@,
            audio_mark@ == audio_marker_dot(),
            video_mark@ == video_marker_dot(),
            audios.deep_view() == names.deep_view().take(i as int).filter(
                |n: Seq<u8>| is_audio_name(n),
            ),
            videos.deep_view() == names.deep_view().take(i as int).filter(
                |n: Seq<u8>| is_video_name(n),
            ),
        decreases names@.len() - i,
    {
        let ghost prev_a = audios.deep_view();
        let ghost prev_v = videos.deep_view();
        let ghost taken = names.deep_view().take(i as int);
        let ghost taken1 = names.deep_view().take(i + 1);
        proof {
            reveal(Seq::filter);
            assert(taken1.drop_last() =~= taken);
            assert(taken1.last() == names.deep_view()[i as int]);
        }
        if contains_bytes(&names[i], &audio_mark) {
            let a = clone_bytes(&names[i]);
            audios.push(a);
            proof {
                assert(audios.deep_view() =~= prev_a.push(names.deep_view()[i as int]));
                assert(taken1.filter(|n: Seq<u8>| is_audio_name(n)) =~= audios.deep_view());
                assert(taken1.filter(|n: Seq<u8>| is_video_name(n)) =~= prev_v);
            }
        } else if contains_bytes(&names[i], &video_mark) {
            let v = clone_bytes(&names[i]);
            videos.push(v);
            proof {
                assert(videos.deep_view() =~= prev_v.push(names.deep_view()[i as int]));
                assert(taken1.filter(|n: Seq<u8>| is_video_name(n)) =~= videos.deep_view());
                assert(taken1.filter(|n: Seq<u8>| is_audio_name(n)) =~= prev_a);
            }
        } else {
            proof {
                assert(taken1.filter(|n: Seq<u8>| is_audio_name(n)) =~= prev_a);
                assert(taken1.filter(|n: Seq<u8>| is_video_name(n)) =~= prev_v);
            }
        }
        i += 1;
    }
    proof {
        assert(names.deep_view().take(names@.len() as int) =~= names.deep_view());
    }
    (audios, videos)
}

/// The stem an audio half pairs under: its file stem with the `_audio`
/// marker removed.
pub open spec fn paired_stem_spec(audio_name: Seq<u8>) -> Seq<u8> {
    replace_all(stem_spec(audio_name), audio_marker(), Seq::empty())
}

/// Computes an audio half's pairing stem.
pub fn paired_stem(audio_name: &Vec<u8>) -> (r: Vec<u8>)
    ensures
        r@ == paired_stem_spec(audio_name@),
{
    let stem = stem_of(audio_name);
    let marker = audio_marker_bytes();
    let empty: Vec<u8> = Vec::new();
    replace_all_bytes(&stem, &marker, &empty)
}

/// Whether a video half matches a pairing stem: its name holds the stem
/// followed directly by `_video.`.
pub open spec fn video_matches(video_name: Seq<u8>, paired: Seq<u8>) -> bool {
    contains_pat(video_name, paired + video_marker_dot())
}

/// The merged output's file name: the video half's name with the `_video`
/// marker removed.
pub open spec fn out_name_spec(video_name: Seq<u8>) -> Seq<u8> {
    replace_all(video_name, video_marker(), Seq::empty())
}

/// The name the tool writes the merged file under, beside the inputs: the
/// video half's name with `_video.` collapsed to the extension dot.
pub open spec fn temp_name_spec(video_name: Seq<u8>) -> Seq<u8> {
    replace_all(video_name, video_marker_dot(), dot())
}

/// Index of the first video half matching a pairing stem, in enumeration
/// order, or -1 when none does.
pub open spec fn first_video_match(videos: Seq<Seq<u8>>, paired: Seq<u8>) -> int
    decreases videos.len(),
{
    if videos.len() == 0 {
        -1
    } else if video_matches(videos[0], paired) {
        0
    } else {
        let r = first_video_match(videos.skip(1), paired);
        if r < 0 {
            -1
        } else {
            r + 1
        }
    }
}

/// The first match is exactly the position that matches with none before
/// it; scanning past the end means no position matches at all.
pub proof fn lemma_first_video_match_at(videos: Seq<Seq<u8>>, paired: Seq<u8>, k: int)
    requires
        0 <= k <= videos.len(),
        forall|j: int| 0 <= j < k ==> !video_matches(#[trigger] videos[j], paired),
        k < videos.len() ==> video_matches(videos[k], paired),
    ensures
        first_video_match(videos, paired) == if k < videos.len() {
            k
        } else {
            -1
        },
    decreases videos.len(),
{
    if videos.len() == 0 {
    } else if k == 0 {
        if videos.len() > 0 && !video_matches(videos[0], paired) {
            lemma_first_video_match_at(videos.skip(1), paired, 0);
        }
    } else {
        assert(!video_matches(videos[0], paired));
        assert forall|j: int| 0 <= j < k - 1 implies !video_matches(
            #[trigger] videos.skip(1)[j],
            paired,
        ) by {
            assert(videos.skip(1)[j] == videos[j + 1]);
        }
        if k - 1 < videos.skip(1).len() {
            assert(videos.skip(1)[k - 1] == videos[k]);
        }
        lemma_first_video_match_at(videos.skip(1), paired, k - 1);
    }
}

/// One unit of merge work, fully named: the two inputs, the output's final
/// name, and the temporary name the tool writes beside the inputs.
#[derive(Debug)]
pub struct MergeJob {
    pub audio: Vec<u8>,
    pub video: Vec<u8>,
    pub out_name: Vec<u8>,
    pub temp_name: Vec<u8>,
}

/// What one merge planning pass decides for one audio half.
#[derive(Debug)]
pub enum MergeDecision {
    /// No video half matches this audio half's pairing stem.
    NoMatchingVideo { audio: Vec<u8> },
    /// The merged output already exists; the pair is left alone.
    AlreadyMerged { audio: Vec<u8>, out_name: Vec<u8> },
    /// Merge the pair. Any stale file under the job's output name beside
    /// the inputs — a leftover of a crashed earlier run — is removed first.
    Merge(MergeJob),
}

/// The mathematical shape of a merge job.
pub struct MergeJobView {
    pub audio: Seq<u8>,
    pub video: Seq<u8>,
    pub out_name: Seq<u8>,
    pub temp_name: Seq<u8>,
}

/// The mathematical shape of a merge decision.
pub enum MergeDecisionView {
    NoMatchingVideo { audio: Seq<u8> },
    AlreadyMerged { audio: Seq<u8>, out_name: Seq<u8> },
    Merge(MergeJobView),
}

impl View for MergeJob {
    type V = MergeJobView;

    open spec fn view(&self) -> MergeJobView {
        MergeJobView {
            audio: self.audio@,
            video: self.video@,
            out_name: self.out_name@,
            temp_name: self.temp_name@,
        }
    }
}

impl View for MergeDecision {
    type V = MergeDecisionView;

    open spec fn view(&self) -> MergeDecisionView {
        match self {
            MergeDecision::NoMatchingVideo { audio } => MergeDecisionView::NoMatchingVideo {
                audio: audio@,
            },
            MergeDecision::AlreadyMerged { audio, out_name } => MergeDecisionView::AlreadyMerged {
                audio: audio@,
                out_name: out_name@,
            },
            MergeDecision::Merge(job) => MergeDecisionView::Merge(job@),
        }
    }
}

/// The planning rule for one audio half: the first matching video half in
/// enumeration order is taken; an existing merged output blocks the pair;
/// otherwise the pair becomes a job.
pub open spec fn spec_merge_decision(
    audio: Seq<u8>,
    videos: Seq<Seq<u8>>,
    existing_outputs: Seq<Seq<u8>>,
) -> MergeDecisionView {
    let paired = paired_stem_spec(audio);
    let k = first_video_match(videos, paired);
    if k < 0 {
        MergeDecisionView::NoMatchingVideo { audio }
    } else {
        let video = videos[k];
        let out_name = out_name_spec(video);
        if existing_outputs.contains(out_name) {
            MergeDecisionView::AlreadyMerged { audio, out_name }
        } else {
            MergeDecisionView::Merge(
                MergeJobView { audio, video, out_name, temp_name: temp_name_spec(video) },
            )
        }
    }
}

/// Decides one audio half.
pub fn merge_decision(
    audio: &Vec<u8>,
    videos: &Vec<Vec<u8>>,
    existing_outputs: &Vec<Vec<u8>>,
) -> (r: MergeDecision)
    ensures
        r@ == spec_merge_decision(audio@, videos.deep_view(), existing_outputs.deep_view()),
{
    let paired = paired_stem(audio);
    let mut target = clone_bytes(&paired);
    let marker = video_marker_dot_bytes();
    push_all(&mut target, &marker);
    proof {
        assert(target@ == paired_stem_spec(audio@) + video_marker_dot());
    }
    let mut i: usize = 0;
    let n = videos.len();
    while i < n
        invariant
            i <= n,
            n == videos@.len(),
            videos.deep_view().len() == videos@.len(),
            forall|j: int| 0 <= j < videos@.len() ==> videos.deep_view()[j] == videos@[j]@,
            target@ == paired_stem_spec(audio@) + video_marker_dot(),
            forall|j: int|
                0 <= j < i ==> !video_matches(#[trigger] videos.deep_view()[j], paired_stem_spec(
                    audio@,
                )),
        decreases n - i,
    {
        if contains_bytes(&videos[i], &target) {
            proof {
                lemma_first_video_match_at(
                    videos.deep_view(),
                    paired_stem_spec(audio@),
                    i as int,
                );
            }
            let video = &videos[i];
            let vm = video_marker_bytes();
            let empty: Vec<u8> = Vec::new();
            let out_name = replace_all_bytes(video, &vm, &empty);
            if crate::convert::stems_contain(existing_outputs, &out_name) {
                return MergeDecision::AlreadyMerged {
                    audio: clone_bytes(audio),
                    out_name,
                };
            }
            let vmd = video_marker_dot_bytes();
            let d = dot_bytes();
            let temp_name = replace_all_bytes(video, &vmd, &d);
            return MergeDecision::Merge(
                MergeJob { audio: clone_bytes(audio), video: clone_bytes(video), out_name, temp_name },
            );
        }
        i += 1;
    }
    proof {
        lemma_first_video_match_at(videos.deep_view(), paired_stem_spec(audio@), n as int);
    }
    MergeDecision::NoMatchingVideo { audio: clone_bytes(audio) }
}

/// Plans one merge pass: one decision per audio half, in enumeration order.
pub fn plan_merges(
    audios: &Vec<Vec<u8>>,
    videos: &Vec<Vec<u8>>,
    existing_outputs: &Vec<Vec<u8>>,
) -> (r: Vec<MergeDecision>)
    ensures
        r@.len() == audios@.len(),
        forall|i: int|
            0 <= i < audios@.len() ==> r@[i]@ == spec_merge_decision(
                audios@[i]@,
                videos.deep_view(),
                existing_outputs.deep_view(),
            ),
{
    let mut r: Vec<MergeDecision> = Vec::new();
    let mut i: usize = 0;
    while i < audios.len()
        invariant
            i <= audios@.len(),
            r@.len() == i,
            forall|j: int|
                0 <= j < i ==> r@[j]@ == spec_merge_decision(
                    audios@[j]@,
                    videos.deep_view(),
                    existing_outputs.deep_view(),
                ),
        decreases audios@.len() - i,
    {
        let d = merge_decision(&audios[i], videos, existing_outputs);
        r.push(d);
        i += 1;
    }
    r
}

/// The media tool's argument list for a merge: read the video half and the
/// audio half, copy both codecs, write the output path.
pub open spec fn merge_args_spec(video: Seq<u8>, audio: Seq<u8>, output: Seq<u8>) -> Seq<Seq<u8>> {
    seq![
        crate::convert::flag_i(),
        video,
        crate::convert::flag_i(),
        audio,
        crate::convert::flag_vcodec(),
        crate::convert::copy_arg(),
        crate::convert::flag_acodec(),
        crate::convert::copy_arg(),
        output,
    ]
}

/// Builds the merge argument list.
pub fn merge_args(video: &Vec<u8>, audio: &Vec<u8>, output: &Vec<u8>) -> (r: Vec<Vec<u8>>)
    ensures
        r.deep_view() == merge_args_spec(video@, audio@, output@),
{
    let mut r: Vec<Vec<u8>> = Vec::new();
    r.push(vec![45u8, 105u8]);
    r.push(clone_bytes(video));
    r.push(vec![45u8, 105u8]);
    r.push(clone_bytes(audio));
    r.push(vec![45u8, 118u8, 99u8, 111u8, 100u8, 101u8, 99u8]);
    r.push(vec![99u8, 111u8, 112u8, 121u8]);
    r.push(vec![45u8, 97u8, 99u8, 111u8, 100u8, 101u8, 99u8]);
    r.push(vec![99u8, 111u8, 112u8, 121u8]);
    r.push(clone_bytes(output));
    proof {
        assert forall|k: int| 0 <= k < r@.len() implies #[trigger] r.deep_view()[k] =~= r@[k]@ by {}
        assert(r.deep_view() =~= merge_args_spec(video@, audio@, output@));
    }
    r
}

/// Law: a merged output is written at most once per pair. If a pass turned
/// an audio half into a job and that job's output has since landed among
/// the merged outputs, a later pass over the same video halves decides
/// already-merged for it, under the same output name — it never merges the
/// pair again.
pub proof fn lemma_landed_merge_blocks(
    audio: Seq<u8>,
    videos: Seq<Seq<u8>>,
    existing1: Seq<Seq<u8>>,
    existing2: Seq<Seq<u8>>,
)
    requires
        spec_merge_decision(audio, videos, existing1) matches MergeDecisionView::Merge(job)
            && existing2.contains(job.out_name),
    ensures
        spec_merge_decision(audio, videos, existing2) matches MergeDecisionView::AlreadyMerged {
            audio: a,
            out_name,
        } && a == audio && existing2.contains(out_name),
{
}

/// A video half's name is cleanly marked when it is a stem, the `_video`
/// marker, the extension dot and the extension, with the marker occurring
/// nowhere else in it.
pub open spec fn cleanly_marked(name: Seq<u8>, stem: Seq<u8>, tail: Seq<u8>) -> bool {
    &&& name == stem + video_marker() + dot() + tail
    &&& forall|j: int| is_match_at(name, video_marker(), j) ==> j == stem.len()
}

/// Law: conflict cleanup hits the right file. For a cleanly marked video
/// half, the job's output name — the path cleared of any stale leftover
/// before the tool runs, and afterwards the move's source — and the
/// temporary name the tool writes are one and the same name, the stem with
/// its extension restored.
pub proof fn lemma_cleanup_matches_temp(name: Seq<u8>, stem: Seq<u8>, tail: Seq<u8>)
    requires
        cleanly_marked(name, stem, tail),
    ensures
        out_name_spec(name) == stem + dot() + tail,
        temp_name_spec(name) == stem + dot() + tail,
{
    let m = video_marker();
    let md = video_marker_dot();
    let sl = stem.len() as int;
    // Occurrences of the dotted marker sit where the bare marker sits.
    assert forall|j: int| is_match_at(name, md, j) implies j == sl by {
        lemma_match_prefix(name, m, dot(), j);
    }
    // Part one: the bare marker, replaced by nothing.
    assert forall|j: int| j < sl implies !is_match_at(name, m, j) by {}
    lemma_replace_all_clean_prefix(name, m, Seq::empty(), sl);
    assert(name.take(sl) =~= stem);
    let rest = name.skip(sl);
    assert(rest =~= m + (dot() + tail));
    assert(rest.subrange(0, m.len() as int) =~= m);
    assert(replace_all(rest, m, Seq::empty()) == Seq::<u8>::empty() + replace_all(
        rest.skip(m.len() as int),
        m,
        Seq::empty(),
    ));
    assert(rest.skip(m.len() as int) =~= dot() + tail);
    assert forall|j: int| !is_match_at(dot() + tail, m, j) by {
        if 0 <= j {
            assert(name.skip(sl + m.len()) =~= dot() + tail);
            lemma_match_skip(name, m, sl + m.len(), j);
        }
    }
    lemma_replace_all_no_match(dot() + tail, m, Seq::empty());
    assert(out_name_spec(name) =~= stem + dot() + tail);
    // Part two: the dotted marker, replaced by the dot.
    assert forall|j: int| j < sl implies !is_match_at(name, md, j) by {}
    lemma_replace_all_clean_prefix(name, md, dot(), sl);
    assert(rest =~= md + tail);
    assert(rest.subrange(0, md.len() as int) =~= md);
    assert(replace_all(rest, md, dot()) == dot() + replace_all(rest.skip(md.len() as int), md, dot()));
    assert(rest.skip(md.len() as int) =~= tail);
    assert forall|j: int| !is_match_at(tail, md, j) by {
        if 0 <= j {
            assert(name.skip(sl + md.len()) =~= tail);
            lemma_match_skip(name, md, sl + md.len(), j);
        }
    }
    lemma_replace_all_no_match(tail, md, dot());
    assert(temp_name_spec(name) =~= stem + dot() + tail);
}

} // verus!
