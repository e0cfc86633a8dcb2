use hunjian::audio::mix_audio_args;
use hunjian::ffmpeg::{default_cjk_font, filter_listed, Platform};
use hunjian::preprocess::{
    check_preprocess_inputs, clip_paths, clips_dir, clips_from_cuts, cut_and_normalize_args, cut_file_name, cut_tasks,
    CutTask,
};
use hunjian::tts::{resolve_voice, speech_args};
use hunjian::ai::video_gen::image_to_motion_video_args;
use hunjian::error::AppError;
use hunjian::types::{Project, RawAsset};

fn strings(v: &[&str]) -> Vec<String> {
    v.iter().map(|s| s.to_string()).collect()
}

#[test]
fn no_extra_tracks_keeps_the_original_sound() {
    let args = mix_audio_args("/w/v.mp4", None, None, "/w/o.mp4", 80, 1000, 300, 1500);
    assert_eq!(args, strings(&["-hide_banner", "-loglevel", "error", "-y", "-i", "/w/v.mp4", "-c", "copy", "/w/o.mp4"]));
}

#[test]
fn three_track_mix() {
    let args = mix_audio_args("/w/v.mp4", Some("/w/n.wav"), Some("/m/bgm.mp3"), "/w/o.mp4", 80, 1000, 300, 1500);
    let filter = "[0:a]aresample=48000,volume=0.08[ao];[1:a]aresample=48000,volume=1[an];\
[2:a]aresample=48000,afade=t=in:st=0:d=1.5,afade=t=out:st=0:d=1.5:curve=tri,volume=0.3[ab];\
[ao][an][ab]amix=inputs=3:duration=longest:dropout_transition=0:normalize=0[aout]";
    assert_eq!(
        args,
        strings(&[
            "-hide_banner", "-loglevel", "error", "-y", "-i", "/w/v.mp4", "-i", "/w/n.wav", "-i", "/m/bgm.mp3",
            "-filter_complex", filter, "-map", "0:v", "-map", "[aout]", "-c:v", "copy", "-c:a", "aac", "-ar",
            "48000", "-b:a", "160k", "-shortest", "/w/o.mp4",
        ])
    );
}

#[test]
fn background_music_alone_is_input_one_and_its_fades_stop_at_two_seconds() {
    let args = mix_audio_args("/w/v.mp4", None, Some("/m/bgm.mp3"), "/w/o.mp4", 125, 1000, 50, 3500);
    assert_eq!(&args[6..8], &["-i", "/m/bgm.mp3"]);
    assert_eq!(
        args[9],
        "[0:a]aresample=48000,volume=0.125[ao];\
[1:a]aresample=48000,afade=t=in:st=0:d=2,afade=t=out:st=0:d=2:curve=tri,volume=0.05[ab];\
[ao][ab]amix=inputs=2:duration=longest:dropout_transition=0:normalize=0[aout]"
    );
}

#[test]
fn narration_only_mix() {
    let args = mix_audio_args("/w/v.mp4", Some("/w/n.wav"), None, "/w/o.mp4", 0, 1500, 300, 0);
    assert_eq!(
        args[9],
        "[0:a]aresample=48000,volume=0[ao];[1:a]aresample=48000,volume=1.5[an];\
[ao][an]amix=inputs=2:duration=longest:dropout_transition=0:normalize=0[aout]"
    );
}

#[test]
fn voices() {
    assert_eq!(resolve_voice("cmn", "female"), "cmn+f3");
    assert_eq!(resolve_voice("en", "deep_male"), "en+m2");
    assert_eq!(resolve_voice("cmn", "auto"), "cmn");
    let args = speech_args("你好", "/w/n.wav", "cmn", "loli").unwrap();
    assert_eq!(args, strings(&["-v", "cmn+f5", "-p", "88", "-s", "230", "-w", "/w/n.wav", "你好"]));
    let args = speech_args("hi", "/w/n.wav", "en", "uncle").unwrap();
    assert_eq!(args, strings(&["-v", "en+m1", "-p", "22", "-s", "125", "-w", "/w/n.wav", "hi"]));
}

#[test]
fn blank_narration_is_refused() {
    match speech_args("  \n", "/w/n.wav", "en", "auto") {
        Err(AppError::InvalidArgument(m)) => assert_eq!(m, "配音文案为空"),
        _ => panic!("expected InvalidArgument"),
    }
}

#[test]
fn fonts_per_platform() {
    assert_eq!(default_cjk_font(Platform::MacOs), "/System/Library/Fonts/PingFang.ttc");
    assert_eq!(default_cjk_font(Platform::Windows), "C:/Windows/Fonts/msyh.ttc");
    assert_eq!(default_cjk_font(Platform::Other), "/usr/share/fonts/truetype/noto/NotoSansCJK-Regular.ttc");
}

#[test]
fn filters_are_found_by_their_second_column() {
    let out = "Filters:\n  T.. = Timeline support\n ... drawbox           V->V       Draw a colored box\n T.C drawtext          V->V       Draw text on top of video frames\n";
    assert!(filter_listed(out, "drawtext"));
    assert!(filter_listed(out, "drawbox"));
    assert!(!filter_listed(out, "draw"));
    assert!(!filter_listed(out, "V->V"));
    assert!(!filter_listed("", "drawtext"));
}

fn asset(path: &str, duration_ms: i32, scene: &str) -> RawAsset {
    RawAsset { path: path.into(), duration_ms, scene_id: scene.into() }
}

#[test]
fn preprocessing_refuses_bad_inputs() {
    let mut p = Project::default();
    match check_preprocess_inputs(&p) {
        Err(AppError::InvalidArgument(m)) => assert_eq!(m, "没有任何原始素材"),
        _ => panic!(),
    }
    p.raw_assets.push(asset("/a.mp4", 2000, "s"));
    p.clip_duration_ms = 0;
    match cut_tasks(&p) {
        Err(AppError::InvalidArgument(m)) => assert_eq!(m, "片段长度必须 > 0"),
        _ => panic!(),
    }
    p.clip_duration_ms = 3000;
    assert!(check_preprocess_inputs(&p).is_ok());
    match cut_tasks(&p) {
        Err(AppError::InvalidArgument(m)) => assert_eq!(m, "素材时长不足以切出任何片段"),
        _ => panic!(),
    }
}

#[test]
fn twelve_seconds_cut_into_three_second_clips() {
    let mut p = Project::default();
    p.clip_duration_ms = 3000;
    for s in ["intro", "product", "outro"] {
        p.raw_assets.push(asset(&format!("/in/{s}.mp4"), 12000, s));
    }
    p.raw_assets.push(asset("/in/short.mp4", 2999, "outro"));
    let tasks = cut_tasks(&p).unwrap();
    assert_eq!(tasks.len(), 12);
    assert_eq!(tasks[0], CutTask { asset: 0, segment: 0 });
    assert_eq!(tasks[5], CutTask { asset: 1, segment: 1 });
    assert_eq!(tasks[11], CutTask { asset: 2, segment: 3 });
    let paths = clip_paths("/w", &tasks, Platform::Other);
    assert_eq!(clips_dir("/w/", Platform::Other), "/w/clips");
    assert_eq!(paths[0], "/w/clips/a000_s000.mp4");
    assert_eq!(paths[11], "/w/clips/a002_s003.mp4");
    assert_eq!(cut_file_name(12, 345), "a012_s345.mp4");
    let clips = clips_from_cuts(&p.raw_assets, &tasks, &paths, 3000);
    assert_eq!(clips.len(), 12);
    assert_eq!(clips[4].scene_id, "product");
    assert_eq!(clips[4].duration_ms, 3000);
    assert_eq!(clips[4].path, "/w/clips/a001_s000.mp4");
    assert!(clips.iter().all(|c| !c.used));
}

#[test]
fn piece_counts_follow_the_f64_quotient() {
    let mut p = Project::default();
    p.clip_duration_ms = 100;
    // 0.3 / 0.1 is 2.9999999999999996 as an f64: two whole pieces
    p.raw_assets.push(asset("/in/a.mp4", 300, "intro"));
    p.raw_assets.push(asset("/in/b.mp4", 400, "intro"));
    let tasks = cut_tasks(&p).unwrap();
    assert_eq!(tasks.len(), 6);
    assert_eq!(tasks[1], CutTask { asset: 0, segment: 1 });
    assert_eq!(tasks[2], CutTask { asset: 1, segment: 0 });
}

#[test]
fn cutting_arguments_per_orientation() {
    let portrait = cut_and_normalize_args("/in/a.mp4", "4.5", 3000, 1080, 1920, 30, "portrait", "/w/c.mp4");
    assert_eq!(
        portrait,
        strings(&[
            "-hide_banner", "-loglevel", "error", "-y", "-ss", "4.5", "-i", "/in/a.mp4", "-t", "3", "-vf",
            "scale=1080:-2,crop=1080:1920:(iw-1080)/2:(ih-1920)/2,fps=30,eq=contrast=1.1:saturation=1.15:brightness=0.02,format=yuv420p",
            "-r", "30", "-c:v", "libx264", "-preset", "veryfast", "-crf", "23", "-pix_fmt", "yuv420p", "-af",
            "loudnorm=I=-16:TP=-1.5:LRA=11,aresample=48000", "-c:a", "aac", "-ar", "48000", "-ac", "2", "-b:a",
            "128k", "-shortest", "/w/c.mp4",
        ])
    );
    let landscape = cut_and_normalize_args("/in/a.mp4", "0", 3000, 1920, 1080, 30, "landscape", "/w/c.mp4");
    assert_eq!(landscape[5], "0");
    assert_eq!(
        landscape[11],
        "scale=1920:1080:force_original_aspect_ratio=decrease,pad=1920:1080:(ow-iw)/2:(oh-ih)/2:black,fps=30,eq=contrast=1.1:saturation=1.15:brightness=0.02,format=yuv420p"
    );
}

#[test]
fn still_images_become_moving_clips() {
    let args = image_to_motion_video_args("/img.png", 5000, "zoom-in", 1080, 1920, "/w/m.mp4");
    assert_eq!(
        args,
        strings(&[
            "-hide_banner", "-loglevel", "error", "-y", "-loop", "1", "-i", "/img.png", "-vf",
            "zoompan=z='min(zoom+0.0015,1.5)':d=150:s=1080x1920:fps=30,trim=duration=5,setpts=PTS-STARTPTS,format=yuv420p",
            "-t", "5.00", "-c:v", "libx264", "-preset", "veryfast", "-crf", "23", "-pix_fmt", "yuv420p", "-an",
            "/w/m.mp4",
        ])
    );
    let pan = image_to_motion_video_args("/img.png", 2500, "pan-left", 1920, 1080, "/w/m.mp4");
    assert_eq!(pan[9], "crop=iw*0.8:ih:(iw-iw*0.8)*min(t/2.5,1):0,scale=1920:1080,fps=30,format=yuv420p");
    assert_eq!(pan[11], "2.50");
    let right = image_to_motion_video_args("/img.png", 2500, "pan-right", 1920, 1080, "/w/m.mp4");
    assert_eq!(right[9], "crop=iw*0.8:ih:(iw-iw*0.8)*(1-min(t/2.5,1)):0,scale=1920:1080,fps=30,format=yuv420p");
    let kb = image_to_motion_video_args("/img.png", 1234, "ken-burns", 640, 360, "/w/m.mp4");
    assert_eq!(
        kb[9],
        "zoompan=z='min(zoom+0.0012,1.4)':x='iw/2-(iw/zoom/2)':y='ih/2-(ih/zoom/2)':d=37:s=640x360:fps=30,trim=duration=1.234,setpts=PTS-STARTPTS,format=yuv420p"
    );
    assert_eq!(kb[11], "1.23");
    let unknown = image_to_motion_video_args("/img.png", 1000, "spin", 640, 360, "/w/m.mp4");
    assert_eq!(
        unknown[9],
        "zoompan=z='min(zoom+0.0015,1.5)':d=30:s=640x360:fps=30,trim=duration=1,setpts=PTS-STARTPTS,format=yuv420p"
    );
}

#[test]
fn motion_durations_follow_the_f64_seconds() {
    // 1.005 s is just below 1.005 as an f64, so it prints as 1.00
    let args = image_to_motion_video_args("/img.png", 1005, "zoom-in", 640, 360, "/w/m.mp4");
    assert_eq!(args[10], "-t");
    assert_eq!(args[11], "1.00");
    // 2.05 * 30.0 is 61.49999999999999 in f64, so 61 frames
    let args = image_to_motion_video_args("/img.png", 2050, "zoom-in", 640, 360, "/w/m.mp4");
    assert!(args[9].starts_with("zoompan=z='min(zoom+0.0015,1.5)':d=61:s=640x360"), "got {}", args[9]);
    assert_eq!(args[11], "2.05");
}
