use hunjian::compose::{
    build_xfade_filter, concat_args, concat_with_transitions_args, pick_transitions, transition,
};
use hunjian::types::Clip;

fn make_clip(duration_ms: i32) -> Clip {
    Clip {
        path: "dummy.mp4".to_string(),
        duration_ms,
        scene_id: "s".to_string(),
        used: false,
    }
}

fn named_clip(path: &str, duration_ms: i32, scene: &str) -> Clip {
    Clip {
        path: path.to_string(),
        duration_ms,
        scene_id: scene.to_string(),
        used: false,
    }
}

const TRANSITIONS: [&str; 5] = ["fade", "slideleft", "slideright", "wipeleft", "zoomin"];

#[test]
fn xfade_offsets_are_correct() {
    let clips = vec![make_clip(3000), make_clip(3000), make_clip(3000)];
    let f = build_xfade_filter(&clips, &["fade", "slideleft"], 500);
    // first pair: offset = 3 - 0.5 = 2.5
    assert!(f.contains("offset=2.500"), "got: {f}");
    // second pair: offset = 6 - 1.0 = 5.0
    assert!(f.contains("offset=5.000"), "got: {f}");
}

#[test]
fn xfade_filter_offsets_correct() {
    let f = build_xfade_filter(
        &[
            Clip {
                path: String::new(),
                duration_ms: 4000,
                scene_id: "a".into(),
                used: false,
            },
            Clip {
                path: String::new(),
                duration_ms: 4000,
                scene_id: "b".into(),
                used: false,
            },
        ],
        &["fade"],
        500,
    );
    assert!(f.contains("offset=3.500"), "got {f}");
}

#[test]
fn xfade_filter_full_text_for_two_clips() {
    let f = build_xfade_filter(&[make_clip(4000), make_clip(4000)], &["fade"], 500);
    assert_eq!(
        f,
        "[0:v]format=yuv420p,setpts=PTS-STARTPTS[v0_in];[1:v]format=yuv420p,setpts=PTS-STARTPTS[v1_in];\
         [0:a]aresample=48000,asetpts=PTS-STARTPTS[a0_in];[1:a]aresample=48000,asetpts=PTS-STARTPTS[a1_in];\
         [v0_in][v1_in]xfade=transition=fade:duration=0.5:offset=3.500[v1];\
         [a0_in][a1_in]acrossfade=d=0.5[a1]"
    );
}

#[test]
fn xfade_offsets_accumulate_with_uneven_clips() {
    let clips = vec![make_clip(2500), make_clip(4000), make_clip(1500)];
    let f = build_xfade_filter(&clips, &["wipeleft", "zoomin"], 250);
    // 2.5 - 0.25 and 6.5 - 0.5
    assert!(f.contains("xfade=transition=wipeleft:duration=0.25:offset=2.250[v1]"), "got {f}");
    assert!(f.contains("[v1][v2_in]xfade=transition=zoomin:duration=0.25:offset=6.000[v2]"), "got {f}");
    assert!(f.contains("[a1][a2_in]acrossfade=d=0.25[a2]"), "got {f}");
    assert!(!f.ends_with(';'));
}

#[test]
fn offsets_never_go_below_zero() {
    let f = build_xfade_filter(&[make_clip(300), make_clip(3000)], &["fade"], 500);
    assert!(f.contains("offset=0.000[v1]"), "got {f}");
}

#[test]
fn transitions_are_the_five_built_in_names() {
    for (i, name) in TRANSITIONS.iter().enumerate() {
        assert_eq!(transition(i), *name);
    }
}

#[test]
fn picked_transitions_are_built_in_and_never_repeat_back_to_back() {
    for n in [0usize, 1, 2, 7, 40] {
        let picked = pick_transitions(n);
        assert_eq!(picked.len(), n);
        for t in &picked {
            assert!(TRANSITIONS.contains(t), "unknown transition {t}");
        }
        for w in picked.windows(2) {
            assert_ne!(w[0], w[1]);
        }
        for round in picked.chunks(5) {
            for i in 0..round.len() {
                for j in i + 1..round.len() {
                    assert_ne!(round[i], round[j]);
                }
            }
        }
    }
}

#[test]
fn five_transitions_use_every_built_in_one() {
    for _ in 0..20 {
        let mut picked = pick_transitions(5);
        picked.sort();
        let mut all = TRANSITIONS.to_vec();
        all.sort();
        assert_eq!(picked, all);
    }
}

#[test]
fn single_clip_is_copied() {
    let clips = vec![named_clip("/w/c0.mp4", 3000, "a")];
    let args = concat_args(&clips, "/w/out.mp4", &[], 500);
    assert_eq!(
        args,
        vec!["-hide_banner", "-loglevel", "error", "-y", "-i", "/w/c0.mp4", "-c", "copy", "/w/out.mp4"]
    );
}

#[test]
fn joined_clips_are_reencoded_through_the_filter_graph() {
    let clips = vec![named_clip("/w/c0.mp4", 3000, "a"), named_clip("/w/c1.mp4", 3000, "b")];
    let args = concat_args(&clips, "/w/out.mp4", &["slideright"], 500);
    let filter = build_xfade_filter(&clips, &["slideright"], 500);
    let expected: Vec<String> = vec![
        "-hide_banner", "-loglevel", "error", "-y", "-i", "/w/c0.mp4", "-i", "/w/c1.mp4",
        "-filter_complex", filter.as_str(), "-map", "[v1]", "-map", "[a1]", "-c:v", "libx264",
        "-preset", "veryfast", "-crf", "23", "-pix_fmt", "yuv420p", "-c:a", "aac", "-ar", "48000",
        "-b:a", "128k", "/w/out.mp4",
    ]
    .into_iter()
    .map(String::from)
    .collect();
    assert_eq!(args, expected);
}

#[test]
fn random_transitions_are_used_between_each_pair() {
    let clips = vec![make_clip(3000), make_clip(3000), make_clip(3000), make_clip(3000)];
    let args = concat_with_transitions_args(&clips, "out.mp4", 500);
    let filter = &args[args.iter().position(|a| a == "-filter_complex").unwrap() + 1];
    assert_eq!(filter.matches("xfade=transition=").count(), 3);
    assert_eq!(filter.matches("acrossfade=d=0.5").count(), 3);
    assert_eq!(args.last().unwrap(), "out.mp4");
}
