use media_batch::merge::{
    classify_media, merge_args, merge_decision, paired_stem, plan_merges, MergeDecision,
};

#[test]
fn classification_follows_the_markers() {
    let names = vec![
        b"talk_audio.m4a".to_vec(),
        b"talk_video.mp4".to_vec(),
        b"notes.txt".to_vec(),
    ];
    let (audios, videos) = classify_media(&names);
    assert_eq!(audios, vec![b"talk_audio.m4a".to_vec()]);
    assert_eq!(videos, vec![b"talk_video.mp4".to_vec()]);
}

#[test]
fn pairing_selects_the_video_and_names_the_output() {
    let audios = vec![b"talk_audio.m4a".to_vec()];
    let videos = vec![b"talk_video.mp4".to_vec()];
    assert_eq!(paired_stem(&audios[0]), b"talk".to_vec());
    let plan = plan_merges(&audios, &videos, &vec![]);
    assert_eq!(plan.len(), 1);
    match &plan[0] {
        MergeDecision::Merge(job) => {
            assert_eq!(job.audio, b"talk_audio.m4a".to_vec());
            assert_eq!(job.video, b"talk_video.mp4".to_vec());
            assert_eq!(job.out_name, b"talk.mp4".to_vec());
        }
        _ => panic!("expected a merge job"),
    }
}

#[test]
fn an_unmatched_audio_half_yields_no_job() {
    let audios = vec![b"talk_audio.m4a".to_vec()];
    let videos = vec![b"other_video.mp4".to_vec()];
    let plan = plan_merges(&audios, &videos, &vec![]);
    assert_eq!(plan.len(), 1);
    match &plan[0] {
        MergeDecision::NoMatchingVideo { audio } => {
            assert_eq!(*audio, b"talk_audio.m4a".to_vec());
        }
        _ => panic!("expected a no-matching-video skip"),
    }
}

#[test]
fn an_existing_output_blocks_the_pair() {
    let audios = vec![b"talk_audio.m4a".to_vec()];
    let videos = vec![b"talk_video.mp4".to_vec()];
    let existing = vec![b"talk.mp4".to_vec()];
    let plan = plan_merges(&audios, &videos, &existing);
    match &plan[0] {
        MergeDecision::AlreadyMerged { audio, out_name } => {
            assert_eq!(*audio, b"talk_audio.m4a".to_vec());
            assert_eq!(*out_name, b"talk.mp4".to_vec());
        }
        _ => panic!("expected an already-merged skip"),
    }
}

#[test]
fn the_first_matching_video_wins() {
    let audios = vec![b"talk_audio.m4a".to_vec()];
    let videos = vec![b"talk_video.mp4".to_vec(), b"talk_video.mkv".to_vec()];
    let plan = plan_merges(&audios, &videos, &vec![]);
    match &plan[0] {
        MergeDecision::Merge(job) => {
            assert_eq!(job.video, b"talk_video.mp4".to_vec());
        }
        _ => panic!("expected a merge job"),
    }
}

#[test]
fn cleanup_target_and_tool_output_coincide() {
    // The stale leftover removed before the tool runs sits under the job's
    // output name beside the inputs — exactly where the tool will write.
    let audios = vec![b"talk_audio.m4a".to_vec()];
    let videos = vec![b"talk_video.mp4".to_vec()];
    let plan = plan_merges(&audios, &videos, &vec![]);
    match &plan[0] {
        MergeDecision::Merge(job) => {
            assert_eq!(job.temp_name, b"talk.mp4".to_vec());
            assert_eq!(job.temp_name, job.out_name);
        }
        _ => panic!("expected a merge job"),
    }
}

#[test]
fn merge_argument_list_is_fixed() {
    let args = merge_args(
        &b"/cap/talk_video.mp4".to_vec(),
        &b"/cap/talk_audio.m4a".to_vec(),
        &b"/cap/talk.mp4".to_vec(),
    );
    let expect: Vec<Vec<u8>> = vec![
        b"-i".to_vec(),
        b"/cap/talk_video.mp4".to_vec(),
        b"-i".to_vec(),
        b"/cap/talk_audio.m4a".to_vec(),
        b"-vcodec".to_vec(),
        b"copy".to_vec(),
        b"-acodec".to_vec(),
        b"copy".to_vec(),
        b"/cap/talk.mp4".to_vec(),
    ];
    assert_eq!(args, expect);
}

#[test]
fn a_decision_falls_for_each_audio_half() {
    let audios = vec![b"one_audio.m4a".to_vec(), b"two_audio.m4a".to_vec()];
    let videos = vec![b"two_video.mp4".to_vec()];
    let plan = plan_merges(&audios, &videos, &vec![]);
    assert_eq!(plan.len(), 2);
    assert!(matches!(&plan[0], MergeDecision::NoMatchingVideo { .. }));
    assert!(matches!(&plan[1], MergeDecision::Merge(_)));
}

#[test]
fn a_lone_decision_matches_the_plan() {
    let videos = vec![b"talk_video.mp4".to_vec()];
    let d = merge_decision(&b"talk_audio.m4a".to_vec(), &videos, &vec![]);
    assert!(matches!(d, MergeDecision::Merge(_)));
}
