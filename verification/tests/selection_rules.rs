use hunjian::selection::{
    auto_reduce_selections, exceeds_budget, mark_used, reset_all_clips, select_clips,
    total_duration_with_transitions,
};
use hunjian::types::{Clip, Project};

fn clip(path: &str, scene: &str, duration_ms: i32) -> Clip {
    Clip { path: path.to_string(), duration_ms, scene_id: scene.to_string(), used: false }
}

fn project_with(scenes: &[&str], per_scene: usize, duration_ms: i32) -> Project {
    let mut p = Project::default();
    p.scenes = scenes.iter().map(|s| s.to_string()).collect();
    for s in scenes {
        for k in 0..per_scene {
            p.clips.push(clip(&format!("/c/{s}_{k}.mp4"), s, duration_ms));
        }
    }
    p
}

#[test]
fn total_length_counts_half_a_second_per_transition() {
    assert_eq!(total_duration_with_transitions(&[]), 0);
    assert_eq!(total_duration_with_transitions(&[clip("a", "s", 3000)]), 3000);
    let three = [clip("a", "s", 3000), clip("b", "s", 3000), clip("c", "s", 3000)];
    assert_eq!(total_duration_with_transitions(&three), 10000);
}

#[test]
fn one_clip_per_scene_in_scene_order() {
    let p = project_with(&["intro", "product", "outro"], 4, 3000);
    for _ in 0..20 {
        let (sel, cut_short) = select_clips(&p, 1);
        assert!(!cut_short);
        assert_eq!(sel.len(), 3);
        assert_eq!(sel[0].scene_id, "intro");
        assert_eq!(sel[1].scene_id, "product");
        assert_eq!(sel[2].scene_id, "outro");
        for c in &sel {
            assert!(p.clips.iter().any(|x| x.path == c.path));
        }
    }
}

#[test]
fn two_distinct_clips_per_scene_and_fewer_when_the_pool_is_small() {
    let mut p = project_with(&["a", "b"], 3, 3000);
    p.clips.truncate(4); // scene b keeps a single clip
    for _ in 0..20 {
        let (sel, cut_short) = select_clips(&p, 2);
        assert!(cut_short);
        assert_eq!(sel.len(), 3);
        assert_eq!(sel[0].scene_id, "a");
        assert_eq!(sel[1].scene_id, "a");
        assert_ne!(sel[0].path, sel[1].path);
        assert_eq!(sel[2].path, "/c/b_0.mp4");
    }
}

#[test]
fn used_clips_and_unknown_scenes_are_not_drawn() {
    let mut p = project_with(&["a"], 3, 3000);
    p.clips[0].used = true;
    p.clips[2].used = true;
    p.clips.push(clip("/c/other.mp4", "not-a-scene", 3000));
    for _ in 0..10 {
        let (sel, cut_short) = select_clips(&p, 2);
        assert!(cut_short);
        assert_eq!(sel.len(), 1);
        assert_eq!(sel[0].path, "/c/a_1.mp4");
    }
}

#[test]
fn marked_clips_are_not_drawn_again_until_reset() {
    let mut p = project_with(&["a", "b"], 2, 3000);
    let (first, _) = select_clips(&p, 1);
    mark_used(&mut p, &first);
    for c in &p.clips {
        assert_eq!(c.used, first.iter().any(|f| f.path == c.path));
    }
    let (second, _) = select_clips(&p, 1);
    assert_eq!(second.len(), 2);
    for c in &second {
        assert!(!first.iter().any(|f| f.path == c.path));
    }
    mark_used(&mut p, &second);
    let (none, cut_short) = select_clips(&p, 1);
    assert!(none.is_empty());
    assert!(cut_short);
    reset_all_clips(&mut p);
    assert!(p.clips.iter().all(|c| !c.used));
    assert_eq!(select_clips(&p, 1).0.len(), 2);
}

#[test]
fn selections_within_budget_are_kept() {
    let mut sel = vec![clip("a", "s", 3000), clip("b", "t", 3000)];
    auto_reduce_selections(&mut sel, 1, 6500);
    assert_eq!(sel.len(), 2);
}

#[test]
fn scene_quota_is_applied_first() {
    // 3 clips of scene s and one of t; only one per scene is allowed
    let mut sel = vec![clip("a", "s", 3000), clip("b", "s", 3000), clip("c", "t", 3000), clip("d", "s", 3000)];
    auto_reduce_selections(&mut sel, 1, 7000);
    let paths: Vec<&str> = sel.iter().map(|c| c.path.as_str()).collect();
    assert_eq!(paths, vec!["a", "c"]);
}

#[test]
fn random_drops_until_it_fits_but_one_clip_stays() {
    for _ in 0..20 {
        let mut sel: Vec<Clip> = (0..6).map(|k| clip(&format!("c{k}"), &format!("s{k}"), 5000)).collect();
        auto_reduce_selections(&mut sel, 1, 12000);
        assert!(total_duration_with_transitions(&sel) <= 12000);
        assert_eq!(sel.len(), 2);
        let mut rest: Vec<Clip> = vec![clip("x", "s", 20000), clip("y", "t", 20000)];
        auto_reduce_selections(&mut rest, 1, 5000);
        assert_eq!(rest.len(), 1);
    }
}

#[test]
fn the_budget_is_checked_on_the_f64_total() {
    // seventeen 0.1 s clips and sixteen transitions: exactly 9.7 s, but the
    // f64 sum of 0.1 s seventeen times lands just above 9.7
    let clips: Vec<Clip> = (0..17).map(|k| clip(&format!("/c/{k}.mp4"), "s", 100)).collect();
    assert_eq!(total_duration_with_transitions(&clips), 9700);
    assert!(exceeds_budget(&clips, 9700));
    assert!(!exceeds_budget(&clips, 9701));
    let mut sel: Vec<Clip> = (0..17).map(|k| clip(&format!("/c/{k}.mp4"), "s", 100)).collect();
    auto_reduce_selections(&mut sel, 17, 9700);
    assert_eq!(sel.len(), 16);
    // 3 s clips add up exactly
    let exact = [clip("a", "s", 3000), clip("b", "s", 3000), clip("c", "s", 3000)];
    assert!(!exceeds_budget(&exact, 10000));
    assert!(exceeds_budget(&exact, 9999));
}
