use hunjian::ai::config::AiConfig;
use hunjian::ai::image_gen::{check_image_key, image_url};
use hunjian::ai::llm::{api_error, bearer, llm_reply_text, script_prompt, title_prompt};
use hunjian::commands::{
    add_scene, apply_mix_params, apply_template, delete_template, import_assets, output_resolution,
    prepare_preprocess, record_outputs, remove_scene, require_scene, save_template,
};
use hunjian::error::AppError;
use hunjian::types::{
    default_auto_subtitle, default_batch_count, default_bgm_fade_ms, default_bgm_volume, default_narration_volume,
    default_orientation, default_original_volume, default_subtitle_position, default_title_font_size,
    default_title_style, default_trans_ms, default_tts_voice, BatchMixResult, Clip, MixParams, MixResult, Project,
    RawAsset, Template,
};

fn template(name: &str, batch_count: u32) -> Template {
    let mut t = Template::default();
    t.name = name.to_string();
    t.batch_count = batch_count;
    t
}

#[test]
fn defaults_match_the_front_end() {
    let p = Project::default();
    assert_eq!(p.clip_duration_ms, 3000);
    assert_eq!(p.picks_per_scene, 1);
    assert_eq!(p.title_position, "5,5");
    assert_eq!(p.subtitle_position, "50,95");
    assert_eq!(p.orientation, "portrait");
    assert_eq!(p.output_resolution, (1080, 1920));
    assert_eq!(p.output_fps, 30);
    assert_eq!(p.max_duration_ms, 60000);
    assert_eq!((p.original_volume_milli, p.narration_volume_milli, p.bgm_volume_milli), (80, 1000, 300));
    assert_eq!(p.tts_voice, "auto");
    assert_eq!(p.trans_ms, 500);
    assert_eq!(p.bgm_fade_ms, 1500);
    assert!(p.work_dir.is_none() && p.clips.is_empty() && p.templates.is_empty());
    assert_eq!(default_subtitle_position(), "50,95");
    assert_eq!(default_orientation(), "portrait");
    assert_eq!(default_original_volume(), 80);
    assert_eq!(default_narration_volume(), 1000);
    assert_eq!(default_bgm_volume(), 300);
    assert_eq!(default_tts_voice(), "auto");
    assert_eq!(default_batch_count(), 1);
    assert_eq!(default_title_font_size(), 48);
    assert_eq!(default_title_style(), "simple");
    assert!(!default_auto_subtitle());
    assert_eq!(default_trans_ms(), 500);
    assert_eq!(default_bgm_fade_ms(), 1500);
}

#[test]
fn scenes_are_unique() {
    let mut p = Project::default();
    assert!(add_scene(&mut p, "intro".into()).is_ok());
    assert!(add_scene(&mut p, "outro".into()).is_ok());
    match add_scene(&mut p, "intro".into()) {
        Err(AppError::InvalidArgument(m)) => assert_eq!(m, "场景已存在: intro"),
        _ => panic!("expected InvalidArgument"),
    }
    assert_eq!(p.scenes, vec!["intro", "outro"]);
}

#[test]
fn removing_a_scene_drops_its_assets_and_clips() {
    let mut p = Project::default();
    p.scenes = vec!["a".into(), "b".into()];
    p.raw_assets = vec![
        RawAsset { path: "/a.mp4".into(), duration_ms: 1000, scene_id: "a".into() },
        RawAsset { path: "/b.mp4".into(), duration_ms: 1000, scene_id: "b".into() },
    ];
    p.clips = vec![
        Clip { path: "/a0.mp4".into(), duration_ms: 1000, scene_id: "a".into(), used: false },
        Clip { path: "/b0.mp4".into(), duration_ms: 1000, scene_id: "b".into(), used: true },
    ];
    remove_scene(&mut p, "a".into());
    assert_eq!(p.scenes, vec!["b"]);
    assert_eq!(p.raw_assets.len(), 1);
    assert_eq!(p.raw_assets[0].path, "/b.mp4");
    assert_eq!(p.clips.len(), 1);
    assert!(p.clips[0].used);
}

#[test]
fn importing_needs_an_existing_scene() {
    let mut p = Project::default();
    match import_assets(&mut p, "nope".into(), vec![("/x.mp4".into(), 1000)]) {
        Err(AppError::NotFound(m)) => assert_eq!(m, "场景不存在: nope"),
        _ => panic!("expected NotFound"),
    }
    assert!(p.raw_assets.is_empty());
    p.scenes.push("s".into());
    assert!(require_scene(&p, "s").is_ok());
    import_assets(&mut p, "s".into(), vec![("/x.mp4".into(), 12000), ("/y.mp4".into(), 0)]).unwrap();
    assert_eq!(p.raw_assets.len(), 2);
    assert_eq!(p.raw_assets[1].path, "/y.mp4");
    assert_eq!(p.raw_assets[1].duration_ms, 0);
    assert_eq!(p.raw_assets[1].scene_id, "s");
}

#[test]
fn orientation_sets_the_resolution_and_clears_old_clips() {
    assert_eq!(output_resolution("landscape"), (1920, 1080));
    assert_eq!(output_resolution("portrait"), (1080, 1920));
    assert_eq!(output_resolution("square"), (1080, 1920));
    let mut p = Project::default();
    p.clips.push(Clip { path: "/c.mp4".into(), duration_ms: 1, scene_id: "s".into(), used: false });
    prepare_preprocess(&mut p, 4000, "landscape".into());
    assert_eq!(p.clip_duration_ms, 4000);
    assert_eq!(p.orientation, "landscape");
    assert_eq!(p.output_resolution, (1920, 1080));
    assert!(p.clips.is_empty());
}

#[test]
fn templates_save_replace_apply_and_delete() {
    let mut p = Project::default();
    save_template(&mut p, template("fast", 3));
    save_template(&mut p, template("slow", 1));
    save_template(&mut p, template("fast", 5));
    let names: Vec<&str> = p.templates.iter().map(|t| t.name.as_str()).collect();
    assert_eq!(names, vec!["slow", "fast"]);
    let t = apply_template(&mut p, "fast".into()).unwrap();
    assert_eq!(t.batch_count, 5);
    assert_eq!(p.batch_count, 5);
    delete_template(&mut p, "fast".into());
    match apply_template(&mut p, "fast".into()) {
        Err(AppError::NotFound(m)) => assert_eq!(m, "模板不存在: fast"),
        _ => panic!("expected NotFound"),
    }
    assert_eq!(p.templates.len(), 1);
}

#[test]
fn applying_a_template_copies_its_settings() {
    let mut p = Project::default();
    let mut t = template("look", 2);
    t.title_style = "neon".into();
    t.trans_ms = 800;
    t.orientation = "landscape".into();
    save_template(&mut p, t);
    apply_template(&mut p, "look".into()).unwrap();
    assert_eq!(p.title_style, "neon");
    assert_eq!(p.trans_ms, 800);
    assert_eq!(p.orientation, "landscape");
    // the resolution is not part of a template
    assert_eq!(p.output_resolution, (1080, 1920));
}

fn mix_params() -> MixParams {
    MixParams {
        clip_duration_ms: 5000,
        picks_per_scene: 2,
        title_text: "T".into(),
        title_position: "top-right".into(),
        title_font_size: 60,
        title_style: "golden".into(),
        title2_text: "T2".into(),
        title2_position: "50,50".into(),
        title2_font_size: 40,
        title2_style: "clean".into(),
        title3_text: String::new(),
        title3_position: String::new(),
        title3_font_size: 48,
        title3_style: "simple".into(),
        subtitle_position: "50,90".into(),
        narration_text: "N".into(),
        bg_music_path: Some("/m.mp3".into()),
        max_duration_ms: 45000,
        original_volume_milli: 100,
        narration_volume_milli: 900,
        bgm_volume_milli: 200,
        tts_voice: "male".into(),
        batch_count: 4,
        auto_subtitle: true,
        trans_ms: 700,
        bgm_fade_ms: 1000,
    }
}

#[test]
fn mix_parameters_are_stored_and_the_clip_length_kept() {
    let mut p = Project::default();
    apply_mix_params(&mut p, &mix_params());
    assert_eq!(p.picks_per_scene, 2);
    assert_eq!(p.title2_text, "T2");
    assert_eq!(p.bg_music_path.as_deref(), Some("/m.mp3"));
    assert_eq!(p.batch_count, 4);
    assert_eq!(p.trans_ms, 700);
    assert_eq!(p.clip_duration_ms, 3000);
    p.clip_duration_ms = 0;
    apply_mix_params(&mut p, &mix_params());
    assert_eq!(p.clip_duration_ms, 5000);
}

#[test]
fn outputs_are_recorded() {
    let mut p = Project::default();
    let result = BatchMixResult {
        outputs: vec![
            MixResult { output_path: "/w/output_001.mp4".into(), duration_ms: 8000, clip_count: 3 },
            MixResult { output_path: "/w/output_002.mp4".into(), duration_ms: 9000, clip_count: 3 },
        ],
        total_count: 2,
    };
    record_outputs(&mut p, &result);
    assert_eq!(p.last_output.as_deref(), Some("/w/output_001.mp4"));
    assert_eq!(p.batch_outputs, vec!["/w/output_001.mp4", "/w/output_002.mp4"]);
    record_outputs(&mut p, &BatchMixResult { outputs: vec![], total_count: 0 });
    assert_eq!(p.last_output.as_deref(), Some("/w/output_001.mp4"));
    assert!(p.batch_outputs.is_empty());
}

#[test]
fn error_texts() {
    assert_eq!(AppError::Ffmpeg("x".into()).to_text(), "ffmpeg 调用失败: x");
    assert_eq!(AppError::Tts("x".into()).to_text(), "TTS 失败: x");
    assert_eq!(AppError::NotFound("x".into()).to_text(), "找不到资源: x");
    assert_eq!(AppError::InvalidArgument("x".into()).to_text(), "参数无效: x");
    assert_eq!(AppError::Io("x".into()).to_text(), "IO 错误: x");
    assert_eq!(AppError::Other("x".into()).to_text(), "其他: x");
}

#[test]
fn ai_defaults_and_key_checks() {
    let cfg = AiConfig::default();
    assert_eq!(cfg.llm_api_url, "https://api.openai.com/v1/chat/completions");
    assert_eq!(cfg.llm_model, "gpt-4o-mini");
    assert_eq!(cfg.image_model, "dall-e-3");
    match title_prompt("猫", &cfg) {
        Err(AppError::InvalidArgument(m)) => assert_eq!(m, "LLM API Key 未配置，请先在设置中填写"),
        _ => panic!("expected InvalidArgument"),
    }
    match check_image_key(&cfg) {
        Err(AppError::InvalidArgument(m)) => assert_eq!(m, "图片 API Key 未配置，请先在设置中填写"),
        _ => panic!("expected InvalidArgument"),
    }
    let mut keyed = cfg.copy();
    keyed.llm_api_key = "SECRET-REDACTED".into();
    keyed.image_api_key = "k".into();
    assert!(check_image_key(&keyed).is_ok());
    assert_eq!(
        title_prompt("猫", &keyed).unwrap(),
        "根据以下视频内容描述，生成3个吸引人的短视频标题，每个标题不超过20字，直接输出标题列表，每行一个，不要编号和多余解释：\n猫"
    );
    assert_eq!(
        script_prompt("咖啡", &keyed).unwrap(),
        "根据以下主题，写一段30秒短视频的中文旁白文案，风格生动有趣，适合口语朗读，字数约150字，直接输出文案内容不要多余解释：\n咖啡"
    );
}

#[test]
fn ai_replies() {
    assert_eq!(bearer("abc"), "Bearer abc");
    match api_error("LLM", "500 Internal Server Error", "oops") {
        AppError::Other(m) => assert_eq!(m, "LLM API 返回错误 (500 Internal Server Error): oops"),
        _ => panic!(),
    }
    assert_eq!(llm_reply_text(Some("  标题一\n标题二 \n")).unwrap(), "标题一\n标题二");
    for empty in [None, Some(""), Some(" \n ")] {
        match llm_reply_text(empty) {
            Err(AppError::Other(m)) => assert_eq!(m, "LLM 返回空内容"),
            _ => panic!("expected Other"),
        }
    }
    assert_eq!(image_url(Some("https://img/1.png")).unwrap(), "https://img/1.png");
    match image_url(None) {
        Err(AppError::Other(m)) => assert_eq!(m, "图片响应中缺少 URL"),
        _ => panic!(),
    }
}
