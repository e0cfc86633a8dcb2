use hunjian::error::AppError;
use hunjian::ffmpeg::Platform;
use hunjian::pipeline::{
    batch_size, has_cjk, narration_lang, output_file_name, pipeline_paths, Event, MixRun, Phase, Progress, Step, Task,
};
use hunjian::types::{Clip, MixParams, Project};

fn params(narration: &str, batch_count: u32) -> MixParams {
    MixParams {
        clip_duration_ms: 3000,
        picks_per_scene: 1,
        title_text: "Hunjian Test".into(),
        title_position: "top-left".into(),
        title_font_size: 48,
        title_style: "simple".into(),
        title2_text: String::new(),
        title2_position: String::new(),
        title2_font_size: 48,
        title2_style: "simple".into(),
        title3_text: String::new(),
        title3_position: String::new(),
        title3_font_size: 48,
        title3_style: "simple".into(),
        subtitle_position: "bottom-center".into(),
        narration_text: narration.into(),
        bg_music_path: None,
        max_duration_ms: 30000,
        original_volume_milli: 80,
        narration_volume_milli: 1000,
        bgm_volume_milli: 300,
        tts_voice: "auto".into(),
        batch_count,
        auto_subtitle: false,
        trans_ms: 500,
        bgm_fade_ms: 1500,
    }
}

fn project(clips_per_scene: usize, work_dir: bool) -> Project {
    let mut p = Project::default();
    p.scenes = vec!["intro".into(), "product".into(), "outro".into()];
    for s in ["intro", "product", "outro"] {
        for k in 0..clips_per_scene {
            p.clips.push(Clip {
                path: format!("/w/clips/{s}_{k}.mp4"),
                duration_ms: 3000,
                scene_id: s.into(),
                used: k == 0,
            });
        }
    }
    if work_dir {
        p.work_dir = Some("/w".into());
    }
    p
}

fn stages(ps: &[Progress]) -> Vec<(&'static str, u32)> {
    ps.iter().map(|p| (p.stage, p.percent)).collect()
}

/// Answers every task as if ffmpeg and espeak-ng succeeded, with drawtext
/// available, and collects the progress.
fn run_to_end(run: &mut MixRun, first: Step, speech_fails: bool) -> (Vec<Progress>, Task) {
    let mut all: Vec<Progress> = Vec::new();
    let mut step = first;
    loop {
        all.extend(step.progress);
        let event = match step.task {
            Task::Ffmpeg(_) | Task::Overlay(_) => Event::Finished(Ok(())),
            Task::ProbeFilter(_) => Event::FilterProbed(true),
            Task::Speak(_) => {
                if speech_fails {
                    Event::Spoken(Err(AppError::Tts("espeak-ng missing".into())))
                } else {
                    Event::Spoken(Ok(()))
                }
            }
            done => return (all, done),
        };
        step = run.advance(event);
    }
}

#[test]
fn batch_sizes_are_clamped() {
    assert_eq!(batch_size(0), 1);
    assert_eq!(batch_size(1), 1);
    assert_eq!(batch_size(7), 7);
    assert_eq!(batch_size(50), 50);
    assert_eq!(batch_size(51), 50);
    assert_eq!(output_file_name(0), "output_001.mp4");
    assert_eq!(output_file_name(41), "output_042.mp4");
}

#[test]
fn narration_language_follows_the_script() {
    assert!(has_cjk("混剪"));
    assert!(has_cjk("abc、"));
    assert!(has_cjk("カタカナ"));
    assert!(!has_cjk("Hello world"));
    assert_eq!(narration_lang("你好 world"), "cmn");
    assert_eq!(narration_lang("Hello world"), "en");
}

#[test]
fn missing_work_dir_fails_before_anything_runs() {
    let (run, step) = MixRun::start(project(2, false), params("", 1), Platform::Other);
    assert!(step.progress.is_empty());
    assert_eq!(run.phase, Phase::Finished);
    match step.task {
        Task::Failed(AppError::InvalidArgument(m)) => assert_eq!(m, "work_dir 未初始化"),
        _ => panic!("expected InvalidArgument"),
    }
}

#[test]
fn empty_clip_pool_fails() {
    let (_, step) = MixRun::start(project(0, true), params("", 1), Platform::Other);
    assert_eq!(stages(&step.progress), vec![("batch", 0)]);
    assert_eq!(step.progress[0].message, "正在生成第 1 / 1 个视频…");
    match step.task {
        Task::Failed(AppError::InvalidArgument(m)) => assert_eq!(m, "片段池为空，请先预处理素材"),
        _ => panic!("expected InvalidArgument"),
    }
}

#[test]
fn clips_outside_the_scenes_are_not_enough() {
    let mut p = Project::default();
    p.work_dir = Some("/w".into());
    p.scenes = vec!["a".into()];
    p.clips.push(Clip { path: "/c.mp4".into(), duration_ms: 3000, scene_id: "b".into(), used: false });
    let (_, step) = MixRun::start(p, params("", 1), Platform::Other);
    assert_eq!(stages(&step.progress), vec![("batch", 0), ("select", 5)]);
    match step.task {
        Task::Failed(AppError::InvalidArgument(m)) => assert_eq!(m, "可用片段不足，请重置或导入更多素材"),
        _ => panic!("expected InvalidArgument"),
    }
}

#[test]
fn full_run_with_narration_goes_through_every_stage() {
    let (mut run, step) = MixRun::start(project(4, true), params("Hello world", 1), Platform::Other);
    // every clip is available again for the batch
    assert!(run.project.clips.iter().all(|c| !c.used));
    let (progress, last) = run_to_end(&mut run, step, false);
    assert_eq!(
        stages(&progress),
        vec![
            ("batch", 0),
            ("select", 5),
            ("select", 15),
            ("compose", 25),
            ("overlay", 55),
            ("tts", 70),
            ("audio", 85),
            ("done", 100),
            ("done", 100),
        ]
    );
    assert_eq!(progress[2].message, "选中 3 个片段");
    assert_eq!(progress[7].message, "完成: /w/output_001.mp4");
    assert_eq!(progress[8].message, "全部完成，共生成 1 个视频");
    match last {
        Task::Done(result) => {
            assert_eq!(result.total_count, 1);
            assert_eq!(result.outputs.len(), 1);
            assert_eq!(result.outputs[0].output_path, "/w/output_001.mp4");
            assert_eq!(result.outputs[0].clip_count, 3);
            // three 3 s clips and two half-second transitions
            assert_eq!(result.outputs[0].duration_ms, 10000);
        }
        _ => panic!("expected Done"),
    }
}

#[test]
fn each_task_is_the_planned_command() {
    let (mut run, step) = MixRun::start(project(2, true), params("你好。", 1), Platform::MacOs);
    match step.task {
        Task::Ffmpeg(args) => {
            assert_eq!(&args[..4], &["-hide_banner", "-loglevel", "error", "-y"]);
            assert_eq!(args.last().unwrap(), "/w/composed.mp4");
        }
        _ => panic!("expected the compose run"),
    }
    let step = run.advance(Event::Finished(Ok(())));
    assert_eq!(stages(&step.progress), vec![("overlay", 55)]);
    match step.task {
        Task::ProbeFilter(f) => assert_eq!(f, "drawtext"),
        _ => panic!("expected the drawtext probe"),
    }
    let step = run.advance(Event::FilterProbed(false));
    assert!(step.progress.is_empty());
    match step.task {
        Task::Overlay(plan) => {
            assert!(!plan.make_text_dir);
            assert_eq!(plan.args, vec!["-hide_banner", "-loglevel", "error", "-y", "-i", "/w/composed.mp4", "-c", "copy", "/w/with_text.mp4"]);
        }
        _ => panic!("expected the overlay"),
    }
    let step = run.advance(Event::Finished(Ok(())));
    assert_eq!(stages(&step.progress), vec![("tts", 70)]);
    match step.task {
        Task::Speak(args) => assert_eq!(
            args,
            vec!["-v", "cmn", "-p", "50", "-s", "175", "-w", "/w/narration.wav", "你好。"]
        ),
        _ => panic!("expected espeak-ng"),
    }
    let step = run.advance(Event::Spoken(Ok(())));
    assert_eq!(stages(&step.progress), vec![("audio", 85)]);
    match step.task {
        Task::Ffmpeg(args) => {
            assert_eq!(&args[4..8], &["-i", "/w/with_text.mp4", "-i", "/w/narration.wav"]);
            assert_eq!(args.last().unwrap(), "/w/output_001.mp4");
        }
        _ => panic!("expected the mix"),
    }
}

#[test]
fn failed_speech_is_skipped_and_the_video_still_completes() {
    let (mut run, step) = MixRun::start(project(2, true), params("Hello", 1), Platform::Other);
    let (progress, last) = run_to_end(&mut run, step, true);
    let failed = progress.iter().find(|p| p.percent == 75).expect("tts failure reported");
    assert_eq!(failed.stage, "tts");
    assert_eq!(failed.message, "TTS 失败，跳过配音：TTS 失败: espeak-ng missing");
    assert!(matches!(last, Task::Done(_)));
}

#[test]
fn ffmpeg_failure_stops_the_batch() {
    let (mut run, _) = MixRun::start(project(2, true), params("", 1), Platform::Other);
    let step = run.advance(Event::Finished(Err(AppError::Ffmpeg("ffmpeg 退出码 1: boom".into()))));
    assert!(step.progress.is_empty());
    assert_eq!(run.phase, Phase::Finished);
    match step.task {
        Task::Failed(AppError::Ffmpeg(m)) => assert_eq!(m, "ffmpeg 退出码 1: boom"),
        _ => panic!("expected the ffmpeg error"),
    }
}

#[test]
fn a_batch_makes_each_video_in_turn() {
    let (mut run, step) = MixRun::start(project(2, true), params("", 3), Platform::Other);
    let (progress, last) = run_to_end(&mut run, step, false);
    let batch: Vec<(u32, String)> =
        progress.iter().filter(|p| p.stage == "batch").map(|p| (p.percent, p.message.clone())).collect();
    assert_eq!(
        batch,
        vec![
            (0, "正在生成第 1 / 3 个视频…".to_string()),
            (33, "正在生成第 2 / 3 个视频…".to_string()),
            (66, "正在生成第 3 / 3 个视频…".to_string()),
        ]
    );
    // no narration: no tts stage
    assert!(progress.iter().all(|p| p.stage != "tts"));
    match last {
        Task::Done(result) => {
            assert_eq!(result.total_count, 3);
            let outs: Vec<&str> = result.outputs.iter().map(|r| r.output_path.as_str()).collect();
            assert_eq!(outs, vec!["/w/output_001.mp4", "/w/output_002.mp4", "/w/output_003.mp4"]);
        }
        _ => panic!("expected Done"),
    }
}

#[test]
fn working_files_are_laid_out_under_the_work_directory() {
    let p = pipeline_paths("/w", 2, Platform::Other);
    assert_eq!(p.composed, "/w/composed.mp4");
    assert_eq!(p.with_text, "/w/with_text.mp4");
    assert_eq!(p.narration, "/w/narration.wav");
    assert_eq!(p.text_dir, "/w/text");
    assert_eq!(p.text_files.title_files, vec!["/w/text/title0.txt", "/w/text/title1.txt", "/w/text/title2.txt"]);
    assert_eq!(p.text_files.subtitle_file, "/w/text/subtitle.txt");
    assert_eq!(p.text_files.ass_file, "/w/text/karaoke.ass");
    assert_eq!(p.outputs, vec!["/w/output_001.mp4", "/w/output_002.mp4"]);
    let win = pipeline_paths("C:\\work\\", 1, Platform::Windows);
    assert_eq!(win.outputs, vec!["C:\\work\\output_001.mp4"]);
    assert_eq!(win.text_files.ass_file, "C:\\work\\text\\karaoke.ass");
    let drive = pipeline_paths("D:", 1, Platform::Windows);
    assert_eq!(drive.composed, "D:composed.mp4");
}

#[test]
fn the_run_writes_under_the_project_work_directory() {
    let (run, _) = MixRun::start(project(2, true), params("", 2), Platform::Other);
    assert_eq!(run.paths.outputs, vec!["/w/output_001.mp4", "/w/output_002.mp4"]);
    assert_eq!(run.paths.composed, "/w/composed.mp4");
}

#[test]
fn clips_all_marked_used_still_make_a_batch() {
    let mut p = project(2, true);
    for c in p.clips.iter_mut() {
        c.used = true;
    }
    let (mut run, step) = MixRun::start(p, params("", 1), Platform::Other);
    assert!(run.project.clips.iter().all(|c| !c.used));
    let (_, last) = run_to_end(&mut run, step, false);
    match last {
        Task::Done(result) => {
            assert_eq!(result.total_count, 1);
            assert_eq!(result.outputs[0].clip_count, 3);
        }
        _ => panic!("expected Done"),
    }
}
