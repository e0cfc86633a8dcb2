use hunjian::overlay::{
    drawtext_filter, ffescape, generate_karaoke_ass, overlay_has_text, overlay_plan, position_expr,
    split_sentences, style_color, style_params, title_file_name, write_ass, OverlayFiles, TitleCfg,
};

const HEADER: &str = "[Script Info]\nTitle:AutoSubtitle\nScriptType:v4.00+\nCollisions:Normal\nPlayResX:1920\nPlayResY:1080\nTimer:100.0000\n\n\
[V4+ Styles]\nFormat: Name, Fontname, Fontsize, PrimaryColour, SecondaryColour, OutlineColour, BackColour, Bold, Italic, Underline, StrikeOut, ScaleX, ScaleY, Spacing, Angle, BorderStyle, Outline, Shadow, Alignment, MarginL, MarginR, MarginV, Encoding\n\
Style: Default,PingFang SC,48,&H00FFFFFF,&H000000FF,&H00000000,&H00000000,0,0,0,0,100,100,0,0,1,2,0,2,40,40,40,1\n\n\
[Events]\nFormat: Layer, Start, End, Style, Name, MarginL, MarginR, MarginV, Effect, Text\n";

fn pair(x: &str, y: &str) -> (String, String) {
    (x.to_string(), y.to_string())
}

fn files() -> OverlayFiles {
    OverlayFiles {
        title_files: vec!["/t/title0.txt".into(), "/t/title1.txt".into(), "/t/title2.txt".into()],
        subtitle_file: "/t/subtitle.txt".into(),
        ass_file: "/t/karaoke.ass".into(),
    }
}

fn copy_args() -> Vec<String> {
    ["-hide_banner", "-loglevel", "error", "-y", "-i", "/w/in.mp4", "-c", "copy", "/w/out.mp4"]
        .iter()
        .map(|s| s.to_string())
        .collect()
}

fn encode_args(vf: &str) -> Vec<String> {
    [
        "-hide_banner", "-loglevel", "error", "-y", "-i", "/w/in.mp4", "-vf", vf, "-c:v", "libx264",
        "-preset", "veryfast", "-crf", "23", "-pix_fmt", "yuv420p", "-c:a", "copy", "/w/out.mp4",
    ]
    .iter()
    .map(|s| s.to_string())
    .collect()
}

#[test]
fn percent_positions_scale_with_the_frame() {
    assert_eq!(position_expr("50,50"), pair("(w-text_w)*50/100", "(h-text_h)*50/100"));
    assert_eq!(position_expr("5,95"), pair("(w-text_w)*5/100", "(h-text_h)*95/100"));
    assert_eq!(position_expr("+7,0"), pair("(w-text_w)*7/100", "(h-text_h)*0/100"));
}

#[test]
fn named_positions_and_fallbacks() {
    assert_eq!(position_expr("top-left"), pair("40", "40"));
    assert_eq!(position_expr("top-center"), pair("(w-text_w)/2", "40"));
    assert_eq!(position_expr("top-right"), pair("w-text_w-40", "40"));
    assert_eq!(position_expr("bottom-center"), pair("(w-text_w)/2", "h-text_h-40"));
    assert_eq!(position_expr("middle"), pair("40", "40"));
    assert_eq!(position_expr(""), pair("40", "40"));
    // not exactly two numbers: fall back to the named positions
    assert_eq!(position_expr("1,2,3"), pair("40", "40"));
    assert_eq!(position_expr("a,5"), pair("40", "40"));
    assert_eq!(position_expr("5,"), pair("40", "40"));
    assert_eq!(position_expr("-5,5"), pair("40", "40"));
}

#[test]
fn title_styles() {
    assert_eq!(style_params("outline"), "borderw=3:bordercolor=black");
    assert_eq!(style_params("neon"), "borderw=4:bordercolor=red:shadowcolor=red@0.4:shadowx=2:shadowy=2");
    assert_eq!(style_params("clean"), "");
    assert_eq!(style_params("simple"), "box=1:boxcolor=black@0.5:boxborderw=12");
    assert_eq!(style_params("whatever"), "box=1:boxcolor=black@0.5:boxborderw=12");
    assert_eq!(style_color("neon"), "yellow");
    assert_eq!(style_color("vintage"), "#F5F5DC");
    assert_eq!(style_color("tech"), "#00FFFF");
    assert_eq!(style_color("golden"), "#FFD700");
    assert_eq!(style_color("comic"), "white");
}

#[test]
fn escaping_quotes_and_backslashes() {
    assert_eq!(ffescape("C:\\fonts\\it's.ttc"), "C:\\\\fonts\\\\it\\'s.ttc");
    assert_eq!(ffescape("plain"), "plain");
}

#[test]
fn drawtext_with_and_without_extra_options() {
    assert_eq!(
        drawtext_filter("/f.ttc", "/t/title0.txt", "40", "40", 48, "white", "borderw=3:bordercolor=black"),
        "drawtext=fontfile='/f.ttc':textfile='/t/title0.txt':x=40:y=40:fontsize=48:fontcolor=white:borderw=3:bordercolor=black"
    );
    assert_eq!(
        drawtext_filter("/f.ttc", "/t/a'b.txt", "1", "2", 32, "yellow", ""),
        "drawtext=fontfile='/f.ttc':textfile='/t/a\\'b.txt':x=1:y=2:fontsize=32:fontcolor=yellow"
    );
}

#[test]
fn sentences_are_split_trimmed_and_blank_ones_dropped() {
    assert_eq!(split_sentences("你好。世界！ ok? 再见"), vec!["你好", "世界", "ok", "再见"]);
    assert_eq!(split_sentences("One. Two!! Three?"), vec!["One", "Two", "Three"]);
    // nothing but punctuation: the whole text is one sentence
    assert_eq!(split_sentences(" 。！"), vec![" 。！"]);
}

#[test]
fn karaoke_subtitles_share_the_duration_equally() {
    let body = generate_karaoke_ass("A. B.", 10000);
    let expected = format!(
        "{HEADER}Dialogue: 0,0:00:00.00,0:00:05.00,Default,,0,0,0,,A\nDialogue: 0,0:00:05.00,0:00:10.00,Default,,0,0,0,,B\n"
    );
    assert_eq!(body, expected);
}

#[test]
fn ass_times_roll_over_minutes_and_hours_and_commas_are_widened() {
    let body = write_ass(&vec!["x, y".to_string(), "z".to_string(), "w".to_string()], 3_723_000);
    // 3723 s / 3 = 1241 s per line
    assert!(body.ends_with(
        "Dialogue: 0,0:00:00.00,0:20:41.00,Default,,0,0,0,,x， y\n\
         Dialogue: 0,0:20:41.00,0:41:22.00,Default,,0,0,0,,z\n\
         Dialogue: 0,0:41:22.00,1:02:03.00,Default,,0,0,0,,w\n"
    ), "got {body}");
    let thirds = write_ass(&vec!["a".to_string(), "b".to_string(), "c".to_string()], 1000);
    assert!(thirds.contains("0:00:00.33,0:00:00.67"), "got {thirds}");
}

#[test]
fn ass_times_print_the_f64_slot_times() {
    // 0.03 s / 2 = 0.015 s, which as an f64 lies just below 0.015
    let body = write_ass(&vec!["a".to_string(), "b".to_string()], 30);
    assert!(body.ends_with(
        "Dialogue: 0,0:00:00.00,0:00:00.01,Default,,0,0,0,,a\n\
         Dialogue: 0,0:00:00.01,0:00:00.03,Default,,0,0,0,,b\n"
    ), "got {body}");
    // a negative duration keeps hours and minutes at zero and signs the seconds
    let neg = write_ass(&vec!["a".to_string()], -1500);
    assert!(neg.ends_with("Dialogue: 0,0:00:-0.00,0:00:-1.50,Default,,0,0,0,,a\n"), "got {neg}");
}

#[test]
fn title_file_names() {
    assert_eq!(title_file_name(0), "title0.txt");
    assert_eq!(title_file_name(2), "title2.txt");
}

#[test]
fn whether_there_is_text_to_draw() {
    let blank = [TitleCfg { text: "  ", pos: "top-left", size: 48, style: "simple" }];
    let one = [TitleCfg { text: "Hi", pos: "top-left", size: 48, style: "simple" }];
    assert!(!overlay_has_text(&blank, " \n"));
    assert!(overlay_has_text(&one, ""));
    assert!(overlay_has_text(&blank, "narration"));
    assert!(!overlay_has_text(&blank, ""));
}

#[test]
fn no_text_copies_the_video() {
    let titles = [TitleCfg { text: "", pos: "top-left", size: 48, style: "simple" }];
    let plan = overlay_plan("/w/in.mp4", &titles, "  ", "50,95", &files(), "/w/out.mp4", "/f.ttc", false, 8000, true);
    assert!(!plan.make_text_dir);
    assert!(plan.files.is_empty());
    assert_eq!(plan.args, copy_args());
}

#[test]
fn without_drawtext_the_text_layer_is_skipped() {
    let titles = [TitleCfg { text: "Title", pos: "top-left", size: 48, style: "simple" }];
    let plan = overlay_plan("/w/in.mp4", &titles, "words", "50,95", &files(), "/w/out.mp4", "/f.ttc", false, 8000, false);
    assert!(!plan.make_text_dir);
    assert!(plan.files.is_empty());
    assert_eq!(plan.args, copy_args());
}

#[test]
fn titles_and_static_subtitle() {
    let titles = [
        TitleCfg { text: "  Hello  ", pos: "top-left", size: 48, style: "simple" },
        TitleCfg { text: "", pos: "", size: 48, style: "simple" },
        TitleCfg { text: "Third", pos: "50,50", size: 60, style: "neon" },
    ];
    let plan = overlay_plan("/w/in.mp4", &titles, "Hi there", "bottom-center", &files(), "/w/out.mp4", "/f.ttc", false, 8000, true);
    assert!(plan.make_text_dir);
    let written: Vec<(String, String)> = plan.files.iter().map(|f| (f.path.clone(), f.contents.clone())).collect();
    assert_eq!(
        written,
        vec![
            pair("/t/title0.txt", "Hello"),
            pair("/t/title2.txt", "Third"),
            pair("/t/subtitle.txt", "Hi there"),
        ]
    );
    let vf = "drawtext=fontfile='/f.ttc':textfile='/t/title0.txt':x=40:y=40:fontsize=48:fontcolor=white:box=1:boxcolor=black@0.5:boxborderw=12,\
drawtext=fontfile='/f.ttc':textfile='/t/title2.txt':x=(w-text_w)*50/100:y=(h-text_h)*50/100:fontsize=60:fontcolor=yellow:borderw=4:bordercolor=red:shadowcolor=red@0.4:shadowx=2:shadowy=2,\
drawtext=fontfile='/f.ttc':textfile='/t/subtitle.txt':x=(w-text_w)/2:y=h-text_h-40:fontsize=32:fontcolor=white:box=1:boxcolor=black@0.5:boxborderw=12";
    assert_eq!(plan.args, encode_args(vf));
}

#[test]
fn automatic_subtitles_come_after_the_titles() {
    let titles = [TitleCfg { text: "T", pos: "top-right", size: 40, style: "clean" }];
    let plan = overlay_plan("/w/in.mp4", &titles, "One. Two.", "50,95", &files(), "/w/out.mp4", "/f.ttc", true, 4000, true);
    assert!(plan.make_text_dir);
    assert_eq!(plan.files.len(), 2);
    assert_eq!(plan.files[0].path, "/t/title0.txt");
    assert_eq!(plan.files[1].path, "/t/karaoke.ass");
    assert_eq!(plan.files[1].contents, generate_karaoke_ass("One. Two.", 4000));
    let vf = "drawtext=fontfile='/f.ttc':textfile='/t/title0.txt':x=w-text_w-40:y=40:fontsize=40:fontcolor=white,subtitles='/t/karaoke.ass'";
    assert_eq!(plan.args, encode_args(vf));
}

#[test]
fn automatic_subtitles_without_any_text_copy_the_video() {
    let titles = [TitleCfg { text: " ", pos: "top-left", size: 48, style: "simple" }];
    let plan = overlay_plan("/w/in.mp4", &titles, "  ", "50,95", &files(), "/w/out.mp4", "/f.ttc", true, 8000, true);
    assert!(!plan.make_text_dir);
    assert!(plan.files.is_empty());
    assert_eq!(plan.args, copy_args());
}

#[test]
fn automatic_subtitles_alone() {
    let titles: [TitleCfg; 0] = [];
    let plan = overlay_plan("/w/in.mp4", &titles, "Only.", "50,95", &files(), "/w/out.mp4", "/f.ttc", true, 4000, true);
    assert_eq!(plan.args, encode_args("subtitles='/t/karaoke.ass'"));
}

#[test]
fn automatic_subtitles_without_narration_draw_titles_only() {
    let titles = [TitleCfg { text: "T", pos: "top-left", size: 40, style: "clean" }];
    let plan = overlay_plan("/w/in.mp4", &titles, "", "50,95", &files(), "/w/out.mp4", "/f.ttc", true, 4000, true);
    assert_eq!(plan.files.len(), 1);
    assert_eq!(
        plan.args,
        encode_args("drawtext=fontfile='/f.ttc':textfile='/t/title0.txt':x=40:y=40:fontsize=40:fontcolor=white")
    );
}
