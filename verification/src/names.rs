//! File-name conventions: the audio/video pairing markers, stems and
//! extensions, and path joining. Names and paths are byte strings; each
//! constant's doc comment gives the ASCII text it spells.

use vstd::prelude::*;
use crate::bytes::push_all;

verus! {

/// The pairing marker `_audio`.
pub open spec fn audio_marker() -> Seq<u8> {
    seq![95u8, 97u8, 117u8, 100u8, 105u8, 111u8]
}

/// The pairing marker `_audio` as a byte vector.
pub fn audio_marker_bytes() -> (r: Vec<u8>)
    ensures
        r@ == audio_marker(),
{
    let r: Vec<u8> = vec![95u8, 97u8, 117u8, 100u8, 105u8, 111u8];
    proof {
        assert(r@ =~= audio_marker());
    }
    r
}

/// The pairing marker `_video`.
pub open spec fn video_marker() -> Seq<u8> {
    seq![95u8, 118u8, 105u8, 100u8, 101u8, 111u8]
}

/// The pairing marker `_video` as a byte vector.
pub fn video_marker_bytes() -> (r: Vec<u8>)
    ensures
        r@ == video_marker(),
{
    let r: Vec<u8> = vec![95u8, 118u8, 105u8, 100u8, 101u8, 111u8];
    proof {
        assert(r@ =~= video_marker());
    }
    r
}

/// The classifying marker `_audio.`: a file whose name holds it counts as an
/// audio half.
pub open spec fn audio_marker_dot() -> Seq<u8> {
    audio_marker() + seq![46u8]
}

/// The classifying marker `_audio.` as a byte vector.
pub fn audio_marker_dot_bytes() -> (r: Vec<u8>)
    ensures
        r@ == audio_marker_dot(),
{
    let r: Vec<u8> = vec![95u8, 97u8, 117u8, 100u8, 105u8, 111u8, 46u8];
    proof {
        assert(r@ =~= audio_marker_dot());
    }
    r
}

/// The classifying marker `_video.`: a file whose name holds it counts as a
/// video half.
pub open spec fn video_marker_dot() -> Seq<u8> {
    video_marker() + seq![46u8]
}

/// The classifying marker `_video.` as a byte vector.
pub fn video_marker_dot_bytes() -> (r: Vec<u8>)
    ensures
        r@ == video_marker_dot(),
{
    let r: Vec<u8> = vec![95u8, 118u8, 105u8, 100u8, 101u8, 111u8, 46u8];
    proof {
        assert(r@ =~= video_marker_dot());
    }
    r
}

/// A single dot `.`.
pub open spec fn dot() -> Seq<u8> {
    seq![46u8]
}

/// A single dot `.` as a byte vector.
pub fn dot_bytes() -> (r: Vec<u8>)
    ensures
        r@ == dot(),
{
    let r: Vec<u8> = vec![46u8];
    proof {
        assert(r@ =~= dot());
    }
    r
}

/// The source extension `flv`.
pub open spec fn flv_ext() -> Seq<u8> {
    seq![102u8, 108u8, 118u8]
}

/// The source extension `flv` as a byte vector.
pub fn flv_ext_bytes() -> (r: Vec<u8>)
    ensures
        r@ == flv_ext(),
{
    let r: Vec<u8> = vec![102u8, 108u8, 118u8];
    proof {
        assert(r@ =~= flv_ext());
    }
    r
}

/// The output extension `mp4`.
pub open spec fn mp4_ext() -> Seq<u8> {
    seq![109u8, 112u8, 52u8]
}

/// The output extension `mp4` as a byte vector.
pub fn mp4_ext_bytes() -> (r: Vec<u8>)
    ensures
        r@ == mp4_ext(),
{
    let r: Vec<u8> = vec![109u8, 112u8, 52u8];
    proof {
        assert(r@ =~= mp4_ext());
    }
    r
}

/// The fixed merge output subdirectory name, `audio-video-merger`.
pub open spec fn merge_subdir() -> Seq<u8> {
    seq![
        97u8, 117u8, 100u8, 105u8, 111u8, 45u8, 118u8, 105u8, 100u8, 101u8, 111u8, 45u8, 109u8,
        101u8, 114u8, 103u8, 101u8, 114u8,
    ]
}

/// The merge output subdirectory name `audio-video-merger` as a byte vector.
pub fn merge_subdir_bytes() -> (r: Vec<u8>)
    ensures
        r@ == merge_subdir(),
{
    let r: Vec<u8> = vec![
        97u8, 117u8, 100u8, 105u8, 111u8, 45u8, 118u8, 105u8, 100u8, 101u8, 111u8, 45u8, 109u8,
        101u8, 114u8, 103u8, 101u8, 114u8,
    ];
    proof {
        assert(r@ =~= merge_subdir());
    }
    r
}

/// The default conversion output subdirectory name, `flv-to-mp4`.
pub open spec fn convert_subdir() -> Seq<u8> {
    seq![102u8, 108u8, 118u8, 45u8, 116u8, 111u8, 45u8, 109u8, 112u8, 52u8]
}

/// The default conversion output subdirectory name `flv-to-mp4` as a byte
/// vector.
pub fn convert_subdir_bytes() -> (r: Vec<u8>)
    ensures
        r@ == convert_subdir(),
{
    let r: Vec<u8> = vec![102u8, 108u8, 118u8, 45u8, 116u8, 111u8, 45u8, 109u8, 112u8, 52u8];
    proof {
        assert(r@ =~= convert_subdir());
    }
    r
}

/// Index of the last `.` in a name, or -1 when there is none.
pub open spec fn last_dot(s: Seq<u8>) -> int
    decreases s.len(),
{
    if s.len() == 0 {
        -1
    } else if s[s.len() - 1] == 46 {
        s.len() - 1
    } else {
        last_dot(s.drop_last())
    }
}

/// The last dot lies within the name, and nothing after it is a dot.
pub proof fn lemma_last_dot_bounds(s: Seq<u8>)
    ensures
        -1 <= last_dot(s) < s.len(),
        last_dot(s) >= 0 ==> s[last_dot(s)] == 46,
        forall|j: int| last_dot(s) < j < s.len() ==> s[j] != 46,
    decreases s.len(),
{
    if s.len() > 0 && s[s.len() - 1] != 46 {
        lemma_last_dot_bounds(s.drop_last());
        assert(forall|j: int| 0 <= j < s.len() - 1 ==> s.drop_last()[j] == s[j]);
    }
}

/// A name's dotless suffix does not move its last dot.
pub proof fn lemma_last_dot_take(s: Seq<u8>, i: int)
    requires
        0 <= i <= s.len(),
        forall|j: int| i <= j < s.len() ==> s[j] != 46,
    ensures
        last_dot(s) == last_dot(s.take(i)),
    decreases s.len() - i,
{
    if i < s.len() {
        lemma_last_dot_take(s, i + 1);
        assert(s.take(i + 1).drop_last() =~= s.take(i));
        assert(s.take(i + 1)[s.take(i + 1).len() - 1] == s[i]);
    } else {
        assert(s.take(i) =~= s);
    }
}

/// A file name's stem: the part before the final dot. A name without a dot,
/// or whose only dot leads it, is its own stem.
pub open spec fn stem_spec(s: Seq<u8>) -> Seq<u8> {
    if last_dot(s) <= 0 {
        s
    } else {
        s.take(last_dot(s))
    }
}

/// A file name's extension: the part after the final dot, where the stem is
/// proper; a name without one has none.
pub open spec fn ext_spec(s: Seq<u8>) -> Option<Seq<u8>> {
    if last_dot(s) <= 0 {
        Option::None
    } else {
        Option::Some(s.skip(last_dot(s) + 1))
    }
}

/// Copies the first `k` bytes of `v`.
pub fn take_bytes(v: &Vec<u8>, k: usize) -> (r: Vec<u8>)
    requires
        k <= v@.len(),
    ensures
        r@ == v@.take(k as int),
{
    let mut r: Vec<u8> = Vec::new();
    let mut i: usize = 0;
    while i < k
        invariant
            i <= k <= v@.len(),
            r@ == v@.take(i as int),
        decreases k - i,
    {
        r.push(v[i]);
        proof {
            assert(v@.take(i as int).push(v@[i as int]) =~= v@.take(i + 1));
        }
        i += 1;
    }
    r
}

/// Finds the position just past the last dot: returns `k` such that the last
/// dot sits at `k - 1`, or `0` when the name has no dot.
fn find_last_dot(name: &Vec<u8>) -> (k: usize)
    ensures
        k == last_dot(name@) + 1,
{
    let mut i: usize = name.len();
    while i > 0
        invariant
            i <= name@.len(),
            forall|j: int| i <= j < name@.len() ==> name@[j] != 46,
        decreases i,
    {
        if name[i - 1] == 46 {
            proof {
                lemma_last_dot_take(name@, i as int);
                assert(name@.take(i as int)[i - 1] == 46);
            }
            return i;
        }
        i -= 1;
    }
    proof {
        lemma_last_dot_take(name@, 0);
        assert(name@.take(0) =~= Seq::<u8>::empty());
    }
    0
}

/// A file name's stem as a byte vector.
pub fn stem_of(name: &Vec<u8>) -> (r: Vec<u8>)
    ensures
        r@ == stem_spec(name@),
{
    let k = find_last_dot(name);
    if k <= 1 {
        let mut r: Vec<u8> = Vec::new();
        push_all(&mut r, name);
        proof {
            assert(r@ =~= name@);
        }
        r
    } else {
        proof {
            lemma_last_dot_bounds(name@);
        }
        take_bytes(name, k - 1)
    }
}

/// Whether the name carries exactly the given extension.
pub fn has_extension(name: &Vec<u8>, ext: &Vec<u8>) -> (r: bool)
    ensures
        r == (ext_spec(name@) == Option::Some(ext@)),
{
    let k = find_last_dot(name);
    if k <= 1 {
        return false;
    }
    proof {
        lemma_last_dot_bounds(name@);
    }
    let n = name.len();
    let tail_len = n - k;
    if tail_len != ext.len() {
        proof {
            assert(name@.skip(k as int).len() == tail_len);
        }
        return false;
    }
    let mut j: usize = 0;
    while j < tail_len
        invariant
            j <= tail_len,
            n == name@.len(),
            2 <= k,
            k == last_dot(name@) + 1,
            k + tail_len == n,
            tail_len == ext@.len(),
            forall|m: int| 0 <= m < j ==> name@[k + m] == ext@[m],
        decreases tail_len - j,
    {
        if name[k + j] != ext[j] {
            proof {
                assert(name@.skip(k as int)[j as int] == name@[k + j]);
            }
            return false;
        }
        j += 1;
    }
    proof {
        assert(name@.skip(k as int) =~= ext@);
    }
    true
}

/// Joins a directory path and an entry name with `/`.
pub fn path_join(dir: &Vec<u8>, name: &Vec<u8>) -> (r: Vec<u8>)
    ensures
        r@ == dir@ + seq![47u8] + name@,
{
    let mut r: Vec<u8> = Vec::new();
    push_all(&mut r, dir);
    r.push(47u8);
    push_all(&mut r, name);
    proof {
        assert(r@ =~= dir@ + seq![47u8] + name@);
    }
    r
}

/// The MP4 file name belonging to a stem: the stem followed by `.mp4`.
pub open spec fn mp4_name_spec(stem: Seq<u8>) -> Seq<u8> {
    stem + dot() + mp4_ext()
}

/// The MP4 file name belonging to a stem, as a byte vector.
pub fn mp4_name(stem: &Vec<u8>) -> (r: Vec<u8>)
    ensures
        r@ == mp4_name_spec(stem@),
{
    let mut r: Vec<u8> = Vec::new();
    push_all(&mut r, stem);
    r.push(46u8);
    r.push(109u8);
    r.push(112u8);
    r.push(52u8);
    proof {
        assert(r@ =~= mp4_name_spec(stem@));
    }
    r
}

} // verus!
