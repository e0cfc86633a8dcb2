//! The whole mixing pipeline: select → compose → overlay → tts → audio mix,
//! repeated for each video of a batch.
//!
//! The pipeline is a state machine: `MixRun::start` and `MixRun::advance`
//! decide, the caller carries out each task (running ffmpeg or espeak-ng,
//! writing files, probing a filter), reports how it went, and forwards the
//! progress events to the front end.
use crate::compose::{concat_args_spec, concat_with_transitions_args, valid_transitions};
use crate::error::AppError;
use crate::ffmpeg::{default_cjk_font, default_cjk_font_spec, Platform};
use crate::overlay::{
    file_views, has_text_spec, overlay_has_text, overlay_plan, overlay_plan_spec, title_file_name,
    OverlayFiles, OverlayPlan, TitleCfg,
};
use crate::audio::{mix_args_spec, mix_audio_args};
use crate::paths::{join_path, join_path_exec};
use crate::selection::{
    assemble, auto_reduce_selections, is_selection, reduced, reset_all_clips, select_clips, valid_draws,
    over_budget, total_duration_with_transitions, total_ms, with_used,
};
use crate::text::{dec, dec_padded, is_blank, is_blank_str, push_dec, push_dec_padded, views};
use crate::tts::{speech_args, speech_args_spec};
use crate::types::{BatchMixResult, Clip, MixParams, MixResult, Project};
use vstd::prelude::*;

verus! {

/// One progress event for the front end.
#[derive(Debug)]
pub struct Progress {
    pub stage: &'static str,
    pub percent: u32,
    pub message: String,
}

/// The text of a progress event: stage, percent, message.
pub open spec fn pv(p: Progress) -> (Seq<char>, u32, Seq<char>) {
    (p.stage@, p.percent, p.message@)
}

/// The texts of a list of progress events.
pub open spec fn pvs(ps: Seq<Progress>) -> Seq<(Seq<char>, u32, Seq<char>)> {
    ps.map_values(|p: Progress| pv(p))
}

fn push_progress(ps: &mut Vec<Progress>, stage: &'static str, percent: u32, message: String)
    ensures
        pvs(final(ps)@) == pvs(old(ps)@).push((stage@, percent, message@)),
{
    let ghost m = message@;
    ps.push(Progress { stage, percent, message });
    assert(pvs(ps@) =~= pvs(old(ps)@).push((stage@, percent, m)));
}

// ---------------------------------------------------------------------------
// Small decisions
// ---------------------------------------------------------------------------

/// `c` is a CJK ideograph, CJK punctuation or kana.
pub open spec fn is_cjk(c: char) -> bool {
    ||| ('\u{4E00}' <= c && c <= '\u{9FFF}')
    ||| ('\u{3000}' <= c && c <= '\u{303F}')
    ||| ('\u{3040}' <= c && c <= '\u{30FF}')
}

/// Whether the text holds any CJK character.
pub fn has_cjk(s: &str) -> (b: bool)
    ensures
        b == (exists|i: int| 0 <= i < s@.len() && is_cjk(#[trigger] s@[i])),
{
    let v = crate::text::chars_of(s);
    let mut i: usize = 0;
    while i < v.len()
        invariant
            i <= v@.len(),
            v@ == s@,
            forall|k: int| 0 <= k < i ==> !is_cjk(#[trigger] v@[k]),
        decreases v.len() - i,
    {
        let c = v[i];
        if ('\u{4E00}' <= c && c <= '\u{9FFF}') || ('\u{3000}' <= c && c <= '\u{303F}') || ('\u{3040}'
            <= c && c <= '\u{30FF}') {
            assert(is_cjk(s@[i as int]));
            return true;
        }
        i = i + 1;
    }
    false
}

/// The espeak-ng language of a narration: Mandarin when it holds CJK text,
/// English otherwise.
pub open spec fn narration_lang_spec(text: Seq<char>) -> Seq<char> {
    if exists|i: int| 0 <= i < text.len() && is_cjk(#[trigger] text[i]) {
        "cmn"@
    } else {
        "en"@
    }
}

/// The espeak-ng language of a narration.
pub fn narration_lang(text: &str) -> (lang: &'static str)
    ensures
        lang@ == narration_lang_spec(text@),
{
    if has_cjk(text) {
        "cmn"
    } else {
        "en"
    }
}

/// How many videos a batch makes: the requested count within 1..=50.
pub open spec fn batch_size_spec(batch_count: u32) -> int {
    if batch_count < 1 {
        1
    } else if batch_count > 50 {
        50
    } else {
        batch_count as int
    }
}

/// How many videos a batch makes.
pub fn batch_size(batch_count: u32) -> (n: usize)
    ensures
        n == batch_size_spec(batch_count),
{
    if batch_count < 1 {
        1
    } else if batch_count > 50 {
        50
    } else {
        batch_count as usize
    }
}

/// The file name of video `i` of a batch: `output_NNN.mp4`, numbered from 1.
pub fn output_file_name(i: usize) -> (name: String)
    requires
        i < usize::MAX,
    ensures
        name@ == "output_"@ + dec_padded((i + 1) as nat, 3) + ".mp4"@,
{
    let mut s = String::new();
    s.append("output_");
    push_dec_padded(&mut s, (i + 1) as u128, 3);
    s.append(".mp4");
    s
}

/// `d` saturated to the `i64` range.
pub open spec fn sat64(d: int) -> int {
    if d > i64::MAX {
        i64::MAX as int
    } else if d < i64::MIN {
        i64::MIN as int
    } else {
        d
    }
}

fn sat64_exec(d: i128) -> (r: i64)
    ensures
        r == sat64(d as int),
{
    if d > i64::MAX as i128 {
        i64::MAX
    } else if d < i64::MIN as i128 {
        i64::MIN
    } else {
        d as i64
    }
}

// ---------------------------------------------------------------------------
// The state machine
// ---------------------------------------------------------------------------

/// Where the working files of a batch go.
pub struct PipelinePaths {
    /// The joined clips.
    pub composed: String,
    /// The joined clips with titles and subtitles.
    pub with_text: String,
    /// The directory of the overlay step's text files.
    pub text_dir: String,
    /// The text files of the overlay step (three title files).
    pub text_files: OverlayFiles,
    /// The narration audio.
    pub narration: String,
    /// The output of each video of the batch, in order.
    pub outputs: Vec<String>,
}

/// The working files of a batch of `count` videos under the directory
/// `work`: `composed.mp4`, `with_text.mp4`, `narration.wav`,
/// `output_001.mp4`... and, under `text`, `title0.txt`..`title2.txt`,
/// `subtitle.txt` and `karaoke.ass`.
pub open spec fn paths_under(p: PipelinePaths, work: Seq<char>, count: int, platform: Platform) -> bool {
    let text = join_path(work, "text"@, platform);
    &&& p.composed@ == join_path(work, "composed.mp4"@, platform)
    &&& p.with_text@ == join_path(work, "with_text.mp4"@, platform)
    &&& p.text_dir@ == text
    &&& p.text_files.title_files@.len() == 3
    &&& forall|i: int|
        0 <= i < 3 ==> (#[trigger] p.text_files.title_files@[i])@ == join_path(
            text,
            "title"@ + dec(i as nat) + ".txt"@,
            platform,
        )
    &&& p.text_files.subtitle_file@ == join_path(text, "subtitle.txt"@, platform)
    &&& p.text_files.ass_file@ == join_path(text, "karaoke.ass"@, platform)
    &&& p.narration@ == join_path(work, "narration.wav"@, platform)
    &&& p.outputs@.len() == count
    &&& forall|i: int|
        0 <= i < count ==> (#[trigger] p.outputs@[i])@ == join_path(
            work,
            "output_"@ + dec_padded((i + 1) as nat, 3) + ".mp4"@,
            platform,
        )
}

/// Lays out the working files of a batch of `count` videos under `work`.
pub fn pipeline_paths(work: &str, count: usize, platform: Platform) -> (p: PipelinePaths)
    requires
        count < usize::MAX,
    ensures
        paths_under(p, work@, count as int, platform),
{
    let text_dir = join_path_exec(work, "text", platform);
    let mut title_files: Vec<String> = Vec::new();
    let mut i: usize = 0;
    while i < 3
        invariant
            i <= 3,
            text_dir@ == join_path(work@, "text"@, platform),
            title_files@.len() == i,
            forall|k: int|
                0 <= k < i ==> (#[trigger] title_files@[k])@ == join_path(
                    text_dir@,
                    "title"@ + dec(k as nat) + ".txt"@,
                    platform,
                ),
        decreases 3 - i,
    {
        let name = title_file_name(i);
        title_files.push(join_path_exec(text_dir.as_str(), name.as_str(), platform));
        i = i + 1;
    }
    let mut outputs: Vec<String> = Vec::new();
    let mut k: usize = 0;
    while k < count
        invariant
            k <= count < usize::MAX,
            outputs@.len() == k,
            forall|j: int|
                0 <= j < k ==> (#[trigger] outputs@[j])@ == join_path(
                    work@,
                    "output_"@ + dec_padded((j + 1) as nat, 3) + ".mp4"@,
                    platform,
                ),
        decreases count - k,
    {
        let name = output_file_name(k);
        outputs.push(join_path_exec(work, name.as_str(), platform));
        k = k + 1;
    }
    let text_files = OverlayFiles {
        title_files,
        subtitle_file: join_path_exec(text_dir.as_str(), "subtitle.txt", platform),
        ass_file: join_path_exec(text_dir.as_str(), "karaoke.ass", platform),
    };
    PipelinePaths {
        composed: join_path_exec(work, "composed.mp4", platform),
        with_text: join_path_exec(work, "with_text.mp4", platform),
        text_dir,
        text_files,
        narration: join_path_exec(work, "narration.wav", platform),
        outputs,
    }
}

/// The working directory of a project as text (empty when it has none).
pub open spec fn work_dir_text(p: Project) -> Seq<char> {
    match p.work_dir {
        Some(w) => w@,
        None => seq![],
    }
}

/// What the run waits for.
#[derive(Debug, Clone, Copy, PartialEq, Eq)]
pub enum Phase {
    Compose,
    Probe,
    Overlay,
    Speak,
    Mix,
    Finished,
}

/// How the last task went.
pub enum Event {
    /// An ffmpeg run (compose, overlay or mix) finished.
    Finished(Result<(), AppError>),
    /// The drawtext probe answered.
    FilterProbed(bool),
    /// espeak-ng finished.
    Spoken(Result<(), AppError>),
}

/// What the caller does next.
pub enum Task {
    /// Run ffmpeg with these arguments; report `Event::Finished`.
    Ffmpeg(Vec<String>),
    /// Ask whether ffmpeg has this filter; report `Event::FilterProbed`.
    ProbeFilter(String),
    /// Create the text directory if asked, write the files, run ffmpeg;
    /// report `Event::Finished`.
    Overlay(OverlayPlan),
    /// Run espeak-ng with these arguments; report `Event::Spoken`.
    Speak(Vec<String>),
    /// The batch is complete.
    Done(BatchMixResult),
    /// The batch stopped on an error.
    Failed(AppError),
}

/// Progress to forward, then a task to carry out.
pub struct Step {
    pub progress: Vec<Progress>,
    pub task: Task,
}

/// A batch of videos being made.
pub struct MixRun {
    /// The project, every clip unused: each video draws from the whole pool.
    pub project: Project,
    pub params: MixParams,
    pub paths: PipelinePaths,
    pub platform: Platform,
    /// Number of videos in the batch.
    pub count: usize,
    /// The videos made so far.
    pub outputs: Vec<MixResult>,
    /// The clips of the current video.
    pub selected: Vec<Clip>,
    /// The length of the current video, in milliseconds.
    pub duration_ms: i128,
    pub phase: Phase,
}

/// All clips of `p` unused.
pub open spec fn all_unused(p: Project) -> bool {
    forall|j: int| 0 <= j < p.clips@.len() ==> !(#[trigger] p.clips@[j]).used
}

/// `sel` is a possible draw for one video: a selection from the pool, cut
/// down to the length budget.
pub open spec fn video_drawn(p: Project, params: MixParams, sel: Seq<Clip>) -> bool {
    exists|drawn: Seq<Clip>|
        #![trigger reduced(drawn, sel, params.picks_per_scene as int, params.max_duration_ms as int)]
        is_selection(p, params.picks_per_scene as int, drawn) && reduced(
            drawn,
            sel,
            params.picks_per_scene as int,
            params.max_duration_ms as int,
        )
}

/// The three titles of a mix request.
pub open spec fn titles_of(params: MixParams) -> Seq<crate::overlay::TitleView> {
    seq![
        (params.title_text@, params.title_position@, params.title_font_size, params.title_style@),
        (params.title2_text@, params.title2_position@, params.title2_font_size, params.title2_style@),
        (params.title3_text@, params.title3_position@, params.title3_font_size, params.title3_style@),
    ]
}

impl MixRun {
    /// The state the run keeps between steps.
    pub open spec fn wf(self) -> bool {
        &&& self.count == batch_size_spec(self.params.batch_count)
        &&& self.paths.outputs@.len() >= self.count
        &&& self.paths.text_files.title_files@.len() >= 3
        &&& all_unused(self.project)
        &&& self.project.clips@.len() <= usize::MAX
        &&& self.outputs@.len() <= self.count
        &&& forall|k: int|
            0 <= k < self.outputs@.len() ==> {
                let o = #[trigger] self.outputs@[k];
                &&& o.output_path == self.paths.outputs@[k]
                &&& o.clip_count >= 1
            }
        &&& self.phase != Phase::Finished ==> {
            &&& self.project.clips@.len() > 0
            &&& self.outputs@.len() < self.count
            &&& video_drawn(self.project, self.params, self.selected@)
            &&& 1 <= self.selected@.len() <= usize::MAX
            &&& self.duration_ms == total_ms(self.selected@)
        }
    }

    /// The event the run waits for.
    pub open spec fn accepts(self, e: Event) -> bool {
        match self.phase {
            Phase::Compose | Phase::Overlay | Phase::Mix => e is Finished,
            Phase::Probe => e is FilterProbed,
            Phase::Speak => e is Spoken,
            Phase::Finished => false,
        }
    }
}


// ---------------------------------------------------------------------------
// Progress events and tasks as plain values
// ---------------------------------------------------------------------------

/// A progress event as text: (stage, percent, message).
pub type ProgressView = (Seq<char>, u32, Seq<char>);

/// "video `i + 1` of `n` begins", at `i * 100 / n` percent of the batch.
pub open spec fn batch_progress(i: int, n: int) -> ProgressView {
    (
        "batch"@,
        ((i * 100) / n) as u32,
        "正在生成第 "@ + dec((i + 1) as nat) + " / "@ + dec(n as nat) + " 个视频…"@,
    )
}

/// "drawing clips".
pub open spec fn draw_progress() -> ProgressView {
    ("select"@, 5, "随机抽取片段…"@)
}

/// "`k` clips drawn".
pub open spec fn picked_progress(k: int) -> ProgressView {
    ("select"@, 15, "选中 "@ + dec(k as nat) + " 个片段"@)
}

/// "joining the clips".
pub open spec fn compose_progress() -> ProgressView {
    ("compose"@, 25, "拼接片段并应用转场…"@)
}

/// "drawing titles and subtitles".
pub open spec fn overlay_progress() -> ProgressView {
    ("overlay"@, 55, "叠加标题与字幕…"@)
}

/// "speaking the narration".
pub open spec fn tts_progress() -> ProgressView {
    ("tts"@, 70, "合成配音…"@)
}

/// "speech synthesis failed with `e`; the video goes on without narration".
pub open spec fn tts_failed_progress(e: AppError) -> ProgressView {
    ("tts"@, 75, "TTS 失败，跳过配音："@ + e.text())
}

/// "mixing the audio tracks".
pub open spec fn audio_progress() -> ProgressView {
    ("audio"@, 85, "混合音轨…"@)
}

/// "the video at `path` is done".
pub open spec fn video_done_progress(path: Seq<char>) -> ProgressView {
    ("done"@, 100, "完成: "@ + path)
}

/// "the batch of `n` videos is done".
pub open spec fn batch_done_progress(n: int) -> ProgressView {
    ("done"@, 100, "全部完成，共生成 "@ + dec(n as nat) + " 个视频"@)
}

/// A task as plain values.
pub enum TaskView {
    Ffmpeg(Seq<Seq<char>>),
    ProbeFilter(Seq<char>),
    Overlay(bool, Seq<(Seq<char>, Seq<char>)>, Seq<Seq<char>>),
    Speak(Seq<Seq<char>>),
    Done(Seq<(Seq<char>, i128, usize)>, usize),
    Failed(Seq<char>),
}

/// A video summary as plain values: (output path, length, clip count).
pub open spec fn result_view(r: MixResult) -> (Seq<char>, i128, usize) {
    (r.output_path@, r.duration_ms, r.clip_count)
}

/// The summaries of a list of videos.
pub open spec fn results_view(rs: Seq<MixResult>) -> Seq<(Seq<char>, i128, usize)> {
    rs.map_values(|r: MixResult| result_view(r))
}

/// A task as plain values; an error by its text.
pub open spec fn task_view(t: Task) -> TaskView {
    match t {
        Task::Ffmpeg(a) => TaskView::Ffmpeg(views(a@)),
        Task::ProbeFilter(f) => TaskView::ProbeFilter(f@),
        Task::Overlay(p) => TaskView::Overlay(p.make_text_dir, file_views(p.files@), views(p.args@)),
        Task::Speak(a) => TaskView::Speak(views(a@)),
        Task::Done(b) => TaskView::Done(results_view(b.outputs@), b.total_count),
        Task::Failed(e) => TaskView::Failed(e.text()),
    }
}

/// The text of an optional string.
pub open spec fn opt_string(o: Option<String>) -> Option<Seq<char>> {
    match o {
        Some(s) => Some(s@),
        None => None,
    }
}

// ---------------------------------------------------------------------------
// What the run does at each step
// ---------------------------------------------------------------------------

/// The overlay task of the current video, `drawtext` telling whether ffmpeg
/// has the drawtext filter.
pub open spec fn overlay_task(r: MixRun, drawtext: bool) -> TaskView {
    let plan = overlay_plan_spec(
        r.paths.composed@,
        titles_of(r.params),
        r.params.narration_text@,
        r.params.subtitle_position@,
        views(r.paths.text_files.title_files@),
        r.paths.text_files.subtitle_file@,
        r.paths.text_files.ass_file@,
        r.paths.with_text@,
        default_cjk_font_spec(r.platform),
        r.params.auto_subtitle,
        sat64(r.duration_ms as int),
        drawtext,
    );
    TaskView::Overlay(plan.0, plan.1, plan.2)
}

/// The audio mix of the current video, with the given narration track.
pub open spec fn mix_task(r: MixRun, narration: Option<Seq<char>>) -> TaskView {
    TaskView::Ffmpeg(
        mix_args_spec(
            r.paths.with_text@,
            narration,
            opt_string(r.params.bg_music_path),
            r.paths.outputs@[r.outputs@.len() as int]@,
            r.params.original_volume_milli as int,
            r.params.narration_volume_milli as int,
            r.params.bgm_volume_milli as int,
            r.params.bgm_fade_ms as int,
        ),
    )
}

/// The summary of the current video.
pub open spec fn current_result(r: MixRun) -> (Seq<char>, i128, usize) {
    (r.paths.outputs@[r.outputs@.len() as int]@, r.duration_ms, r.selected@.len() as usize)
}

/// The first steps of a video whose draw gave `sel`, its clips joined by the
/// transitions `trs`: progress, task and the phase that follows.
pub open spec fn video_begin(r: MixRun, sel: Seq<Clip>, trs: Seq<Seq<char>>) -> (
    Seq<ProgressView>,
    TaskView,
    Phase,
) {
    if r.project.clips@.len() == 0 {
        (seq![], TaskView::Failed("参数无效: 片段池为空，请先预处理素材"@), Phase::Finished)
    } else if sel.len() == 0 {
        (
            seq![draw_progress()],
            TaskView::Failed("参数无效: 可用片段不足，请重置或导入更多素材"@),
            Phase::Finished,
        )
    } else {
        (
            seq![draw_progress(), picked_progress(sel.len() as int), compose_progress()],
            TaskView::Ffmpeg(concat_args_spec(sel, r.paths.composed@, trs, r.params.trans_ms as int)),
            Phase::Compose,
        )
    }
}

/// Whether `e` ends the current video and another one of the batch begins.
pub open spec fn begins_video(r: MixRun, e: Event) -> bool {
    &&& r.phase == Phase::Mix
    &&& e matches Event::Finished(Ok(_))
    &&& r.outputs@.len() + 1 < r.count
}

/// What the run does on event `e`: progress, task and the phase that
/// follows. When another video begins, `sel` is its draw and `trs` its
/// transitions.
pub open spec fn advance_spec(r: MixRun, e: Event, sel: Seq<Clip>, trs: Seq<Seq<char>>) -> (
    Seq<ProgressView>,
    TaskView,
    Phase,
) {
    let narration = r.params.narration_text@;
    match e {
        Event::Finished(Err(x)) => (seq![], TaskView::Failed(x.text()), Phase::Finished),
        Event::Finished(Ok(_)) => {
            if r.phase == Phase::Compose {
                if has_text_spec(titles_of(r.params), narration) {
                    (seq![overlay_progress()], TaskView::ProbeFilter("drawtext"@), Phase::Probe)
                } else {
                    (seq![overlay_progress()], overlay_task(r, false), Phase::Overlay)
                }
            } else if r.phase == Phase::Overlay {
                if is_blank(narration) {
                    (seq![audio_progress()], mix_task(r, None), Phase::Mix)
                } else {
                    (
                        seq![tts_progress()],
                        TaskView::Speak(
                            speech_args_spec(
                                narration,
                                r.paths.narration@,
                                narration_lang_spec(narration),
                                r.params.tts_voice@,
                            ),
                        ),
                        Phase::Speak,
                    )
                }
            } else {
                let i = r.outputs@.len() as int;
                let done = seq![video_done_progress(r.paths.outputs@[i]@)];
                if i + 1 < r.count {
                    let b = video_begin(r, sel, trs);
                    (done.push(batch_progress(i + 1, r.count as int)) + b.0, b.1, b.2)
                } else {
                    (
                        done.push(batch_done_progress(r.count as int)),
                        TaskView::Done(results_view(r.outputs@).push(current_result(r)), r.count),
                        Phase::Finished,
                    )
                }
            }
        },
        Event::FilterProbed(b) => (seq![], overlay_task(r, b), Phase::Overlay),
        Event::Spoken(Ok(_)) => (seq![audio_progress()], mix_task(r, Some(r.paths.narration@)), Phase::Mix),
        Event::Spoken(Err(x)) => (
            seq![tts_failed_progress(x), audio_progress()],
            mix_task(r, None),
            Phase::Mix,
        ),
    }
}

// ---------------------------------------------------------------------------
// Building the steps
// ---------------------------------------------------------------------------

fn batch_message(i: usize, n: usize) -> (m: String)
    requires
        i < n <= 50,
    ensures
        m@ == batch_progress(i as int, n as int).2,
{
    let mut m = String::new();
    m.append("正在生成第 ");
    push_dec(&mut m, (i + 1) as u128);
    m.append(" / ");
    push_dec(&mut m, n as u128);
    m.append(" 个视频…");
    m
}

fn push_batch_progress(ps: &mut Vec<Progress>, i: usize, n: usize)
    requires
        i < n <= 50,
    ensures
        pvs(final(ps)@) == pvs(old(ps)@).push(batch_progress(i as int, n as int)),
{
    let percent = ((i * 100) / n) as u32;
    push_progress(ps, "batch", percent, batch_message(i, n));
}

fn picked_message(k: usize) -> (m: String)
    ensures
        m@ == picked_progress(k as int).2,
{
    let mut m = String::new();
    m.append("选中 ");
    push_dec(&mut m, k as u128);
    m.append(" 个片段");
    m
}

fn tts_failed_message(e: &AppError) -> (m: String)
    ensures
        m@ == tts_failed_progress(*e).2,
{
    let mut m = String::new();
    m.append("TTS 失败，跳过配音：");
    let t = e.to_text();
    m.append(t.as_str());
    m
}

fn video_done_message(path: &str) -> (m: String)
    ensures
        m@ == video_done_progress(path@).2,
{
    let mut m = String::new();
    m.append("完成: ");
    m.append(path);
    m
}

fn batch_done_message(n: usize) -> (m: String)
    ensures
        m@ == batch_done_progress(n as int).2,
{
    let mut m = String::new();
    m.append("全部完成，共生成 ");
    push_dec(&mut m, n as u128);
    m.append(" 个视频");
    m
}

fn invalid_argument(msg: &str) -> (e: AppError)
    ensures
        e.text() == "参数无效: "@ + msg@,
{
    AppError::InvalidArgument(msg.to_owned())
}

impl MixRun {
    /// The overlay task of the current video.
    fn overlay_task_exec(&self, drawtext: bool) -> (t: Task)
        requires
            self.paths.text_files.title_files@.len() >= 3,
        ensures
            task_view(t) == overlay_task(*self, drawtext),
    {
        let p = &self.params;
        let titles = self.titles();
        let plan = overlay_plan(
            self.paths.composed.as_str(),
            titles.as_slice(),
            p.narration_text.as_str(),
            p.subtitle_position.as_str(),
            &self.paths.text_files,
            self.paths.with_text.as_str(),
            default_cjk_font(self.platform),
            p.auto_subtitle,
            sat64_exec(self.duration_ms),
            drawtext,
        );
        Task::Overlay(plan)
    }

    /// The audio mix of the current video.
    fn mix_task_exec(&self, narration: Option<&str>) -> (t: Task)
        requires
            self.outputs@.len() < self.paths.outputs@.len(),
        ensures
            task_view(t) == mix_task(*self, crate::audio::opt_view(narration)),
    {
        let p = &self.params;
        let bgm: Option<&str> = match &p.bg_music_path {
            Some(b) => Some(b.as_str()),
            None => None,
        };
        let args = mix_audio_args(
            self.paths.with_text.as_str(),
            narration,
            bgm,
            self.paths.outputs[self.outputs.len()].as_str(),
            p.original_volume_milli,
            p.narration_volume_milli,
            p.bgm_volume_milli,
            p.bgm_fade_ms,
        );
        Task::Ffmpeg(args)
    }
}

fn copy_results(v: &Vec<MixResult>) -> (r: Vec<MixResult>)
    ensures
        r@ == v@,
{
    let mut r: Vec<MixResult> = Vec::new();
    let mut i: usize = 0;
    while i < v.len()
        invariant
            i <= v@.len(),
            r@ == v@.take(i as int),
        decreases v.len() - i,
    {
        r.push(v[i].copy());
        assert(r@ =~= v@.take(i + 1));
        i = i + 1;
    }
    assert(v@.take(v@.len() as int) =~= v@);
    r
}

/// A drawn video keeps within the length budget, unless it is a single clip.
pub proof fn lemma_drawn_within_budget(p: Project, params: MixParams, sel: Seq<Clip>)
    requires
        video_drawn(p, params, sel),
    ensures
        !over_budget(sel, params.max_duration_ms as int) || sel.len() <= 1,
{
    let drawn = choose|drawn: Seq<Clip>|
        #![trigger reduced(drawn, sel, params.picks_per_scene as int, params.max_duration_ms as int)]
        is_selection(p, params.picks_per_scene as int, drawn) && reduced(
            drawn,
            sel,
            params.picks_per_scene as int,
            params.max_duration_ms as int,
        );
    if !over_budget(drawn, params.max_duration_ms as int) {
        assert(sel == drawn);
    }
}

/// A video began: its draw gave `sel`, its clips are joined by `trs`, the
/// progress went from `before` to `after` and the run gave task `t` and
/// moved to `phase`.
pub open spec fn begun(
    r: MixRun,
    sel: Seq<Clip>,
    trs: Seq<Seq<char>>,
    before: Seq<ProgressView>,
    after: Seq<ProgressView>,
    t: TaskView,
    phase: Phase,
) -> bool {
    let b = video_begin(r, sel, trs);
    &&& b.2 == Phase::Compose ==> valid_transitions(trs, sel.len() - 1)
    &&& after == before + b.0
    &&& t == b.1
    &&& phase == b.2
}

/// The run, in state `r`, took event `e`: the progress it gave is `after`,
/// its task `t`, and it moved to `phase`. When another video began, `sel` is
/// its draw and `trs` its transitions.
#[verifier::opaque]
pub open spec fn advanced(
    r: MixRun,
    e: Event,
    sel: Seq<Clip>,
    trs: Seq<Seq<char>>,
    after: Seq<ProgressView>,
    t: TaskView,
    phase: Phase,
) -> bool {
    let a = advance_spec(r, e, sel, trs);
    &&& begins_video(r, e) && a.2 == Phase::Compose ==> valid_transitions(trs, sel.len() - 1)
    &&& after == a.0
    &&& t == a.1
    &&& phase == a.2
}

/// Draws the clips of one video: a selection cut down to the budget.
fn draw_clips(project: &Project, params: &MixParams) -> (sel: Vec<Clip>)
    ensures
        video_drawn(*project, *params, sel@),
{
    let (mut sel, _cut_short) = select_clips(project, params.picks_per_scene);
    let ghost drawn = sel@;
    auto_reduce_selections(&mut sel, params.picks_per_scene, params.max_duration_ms);
    assert(reduced(drawn, sel@, params.picks_per_scene as int, params.max_duration_ms as int));
    sel
}

impl MixRun {
    /// Draws the clips of the next video and plans joining them.
    fn begin_video(&mut self, progress: &mut Vec<Progress>) -> (t: Task)
        ensures
            final(self).project == old(self).project,
            final(self).params == old(self).params,
            final(self).paths == old(self).paths,
            final(self).platform == old(self).platform,
            final(self).count == old(self).count,
            final(self).outputs == old(self).outputs,
            final(self).project.clips@.len() > 0 ==> video_drawn(
                final(self).project,
                final(self).params,
                final(self).selected@,
            ),
            final(self).duration_ms == total_ms(final(self).selected@),
            final(self).selected@.len() <= usize::MAX,
            exists|trs: Seq<Seq<char>>|
                #[trigger] begun(
                    *old(self),
                    final(self).selected@,
                    trs,
                    pvs(old(progress)@),
                    pvs(final(progress)@),
                    task_view(t),
                    final(self).phase,
                ),
    {
        let ghost before = pvs(progress@);
        if self.project.clips.len() == 0 {
            self.selected = Vec::new();
            self.duration_ms = 0;
            self.phase = Phase::Finished;
            let t = Task::Failed(invalid_argument("片段池为空，请先预处理素材"));
            proof {
                reveal_strlit("参数无效: ");
                reveal_strlit("片段池为空，请先预处理素材");
                reveal_strlit("参数无效: 片段池为空，请先预处理素材");
                assert("参数无效: "@ + "片段池为空，请先预处理素材"@ =~= "参数无效: 片段池为空，请先预处理素材"@);
            }
            assert(pvs(progress@) =~= before + video_begin(*old(self), self.selected@, seq![]).0);
            assert(begun(*old(self), self.selected@, seq![], before, pvs(progress@), task_view(t), self.phase));
            return t;
        }
        push_progress(progress, "select", 5, "随机抽取片段…".to_owned());
        let sel = draw_clips(&self.project, &self.params);
        self.duration_ms = total_duration_with_transitions(sel.as_slice());
        if sel.len() == 0 {
            self.selected = sel;
            self.phase = Phase::Finished;
            let t = Task::Failed(invalid_argument("可用片段不足，请重置或导入更多素材"));
            proof {
                reveal_strlit("参数无效: ");
                reveal_strlit("可用片段不足，请重置或导入更多素材");
                reveal_strlit("参数无效: 可用片段不足，请重置或导入更多素材");
                assert("参数无效: "@ + "可用片段不足，请重置或导入更多素材"@ =~= "参数无效: 可用片段不足，请重置或导入更多素材"@);
            }
            assert(pvs(progress@) =~= before + video_begin(*old(self), self.selected@, seq![]).0);
            assert(begun(*old(self), self.selected@, seq![], before, pvs(progress@), task_view(t), self.phase));
            return t;
        }
        push_progress(progress, "select", 15, picked_message(sel.len()));
        push_progress(progress, "compose", 25, "拼接片段并应用转场…".to_owned());
        let args = concat_with_transitions_args(sel.as_slice(), self.paths.composed.as_str(), self.params.trans_ms);
        let ghost trs = choose|trs: Seq<Seq<char>>|
            valid_transitions(trs, sel@.len() - 1) && views(args@) == concat_args_spec(
                sel@,
                self.paths.composed@,
                trs,
                self.params.trans_ms as int,
            );
        self.selected = sel;
        self.phase = Phase::Compose;
        assert(pvs(progress@) =~= before + video_begin(*old(self), self.selected@, trs).0);
        let t = Task::Ffmpeg(args);
        assert(begun(*old(self), self.selected@, trs, before, pvs(progress@), task_view(t), self.phase));
        t
    }
}

impl MixRun {
    /// The three titles of the mix request.
    fn titles(&self) -> (t: Vec<TitleCfg<'_>>)
        ensures
            t@.len() == 3,
            crate::overlay::title_views(t@) == titles_of(self.params),
    {
        let p = &self.params;
        let t: Vec<TitleCfg> = vec![
            TitleCfg {
                text: p.title_text.as_str(),
                pos: p.title_position.as_str(),
                size: p.title_font_size,
                style: p.title_style.as_str(),
            },
            TitleCfg {
                text: p.title2_text.as_str(),
                pos: p.title2_position.as_str(),
                size: p.title2_font_size,
                style: p.title2_style.as_str(),
            },
            TitleCfg {
                text: p.title3_text.as_str(),
                pos: p.title3_position.as_str(),
                size: p.title3_font_size,
                style: p.title3_style.as_str(),
            },
        ];
        assert(crate::overlay::title_views(t@) =~= titles_of(self.params));
        t
    }

    /// Begins a batch of `batch_size(params.batch_count)` videos, their
    /// working files laid out under the project's working directory (see
    /// `paths_under`). Every clip is marked unused first, so each video of
    /// the batch draws from the whole pool. The project needs a working
    /// directory; the first video then begins.
    #[verifier::rlimit(50)]
    pub fn start(project: Project, params: MixParams, platform: Platform) -> (r: (MixRun, Step))
        ensures
            r.0.wf(),
            r.0.params == params,
            paths_under(r.0.paths, work_dir_text(project), r.0.count as int, platform),
            r.0.platform == platform,
            r.0.count == batch_size_spec(params.batch_count),
            r.0.outputs@.len() == 0,
            all_reset(project, r.0.project),
            project.work_dir is None ==> {
                &&& pvs(r.1.progress@) == Seq::<ProgressView>::empty()
                &&& task_view(r.1.task) == TaskView::Failed("参数无效: work_dir 未初始化"@)
                &&& r.0.phase == Phase::Finished
            },
            project.work_dir is Some && project.clips@.len() > 0 ==> video_drawn(
                r.0.project,
                params,
                r.0.selected@,
            ),
            project.work_dir is Some ==> exists|trs: Seq<Seq<char>>|
                #[trigger] begun(
                    r.0,
                    r.0.selected@,
                    trs,
                    seq![batch_progress(0, r.0.count as int)],
                    pvs(r.1.progress@),
                    task_view(r.1.task),
                    r.0.phase,
                ),
    {
        let count = batch_size(params.batch_count);
        let has_dir = project.work_dir.is_some();
        let paths = match &project.work_dir {
            Some(w) => pipeline_paths(w.as_str(), count, platform),
            None => {
                proof {
                    reveal_strlit("");
                }
                pipeline_paths("", count, platform)
            },
        };
        assert(paths_under(paths, work_dir_text(project), count as int, platform));
        let mut run = MixRun {
            project,
            params,
            paths,
            platform,
            count,
            outputs: Vec::new(),
            selected: Vec::new(),
            duration_ms: 0,
            phase: Phase::Finished,
        };
        reset_all_clips(&mut run.project);
        let _ = run.project.clips.len();
        let mut progress: Vec<Progress> = Vec::new();
        if !has_dir {
            let t = Task::Failed(invalid_argument("work_dir 未初始化"));
            proof {
                reveal_strlit("参数无效: ");
                reveal_strlit("work_dir 未初始化");
                reveal_strlit("参数无效: work_dir 未初始化");
                assert("参数无效: "@ + "work_dir 未初始化"@ =~= "参数无效: work_dir 未初始化"@);
                assert(pvs(progress@) =~= Seq::<ProgressView>::empty());
            }
            return (run, Step { progress, task: t });
        }
        push_batch_progress(&mut progress, 0, count);
        assert(pvs(progress@) =~= seq![batch_progress(0, count as int)]);
        let ghost r0 = run;
        let t = run.begin_video(&mut progress);
        proof {
            let trs = choose|trs: Seq<Seq<char>>|
                begun(
                    r0,
                    run.selected@,
                    trs,
                    seq![batch_progress(0, count as int)],
                    pvs(progress@),
                    task_view(t),
                    run.phase,
                );
            assert(video_begin(r0, run.selected@, trs) == video_begin(run, run.selected@, trs));
            assert(begun(
                run,
                run.selected@,
                trs,
                seq![batch_progress(0, count as int)],
                pvs(progress@),
                task_view(t),
                run.phase,
            ));
        }
        let res = (run, Step { progress, task: t });
        assert(res.0.phase == run.phase);
        assert(pvs(res.1.progress@) == pvs(progress@));
        assert(exists|trs: Seq<Seq<char>>|
                #[trigger] begun(
                    res.0,
                    res.0.selected@,
                    trs,
                    seq![batch_progress(0, res.0.count as int)],
                    pvs(res.1.progress@),
                    task_view(res.1.task),
                    res.0.phase,
                ));
        res
    }

    /// Compose finished: plan the overlay, or first ask for drawtext.
    fn after_compose(&mut self, Ghost(e): Ghost<Event>) -> (step: Step)
        requires
            (e matches Event::Finished(Ok(_))),
            old(self).wf(),
            old(self).phase == Phase::Compose,
        ensures
            final(self).wf(),
            *final(self) == (MixRun { phase: final(self).phase, ..*old(self) }),
            advanced(
                *old(self),
                e,
                final(self).selected@,
                Seq::empty(),
                pvs(step.progress@),
                task_view(step.task),
                final(self).phase,
            ),
    {
        reveal(advanced);
        let mut progress: Vec<Progress> = Vec::new();
        push_progress(&mut progress, "overlay", 55, "叠加标题与字幕…".to_owned());
        assert(pvs(progress@) =~= seq![overlay_progress()]);
        let has_text = {
            let titles = self.titles();
            overlay_has_text(titles.as_slice(), self.params.narration_text.as_str())
        };
        if has_text {
            self.phase = Phase::Probe;
            Step { progress, task: Task::ProbeFilter("drawtext".to_owned()) }
        } else {
            let t = self.overlay_task_exec(false);
            self.phase = Phase::Overlay;
            Step { progress, task: t }
        }
    }

    /// The overlay finished: speak the narration, or mix without one.
    fn after_overlay(&mut self, Ghost(e): Ghost<Event>) -> (step: Step)
        requires
            (e matches Event::Finished(Ok(_))),
            old(self).wf(),
            old(self).phase == Phase::Overlay,
        ensures
            final(self).wf(),
            *final(self) == (MixRun { phase: final(self).phase, ..*old(self) }),
            advanced(
                *old(self),
                e,
                final(self).selected@,
                Seq::empty(),
                pvs(step.progress@),
                task_view(step.task),
                final(self).phase,
            ),
    {
        reveal(advanced);
        let mut progress: Vec<Progress> = Vec::new();
        if is_blank_str(self.params.narration_text.as_str()) {
            push_progress(&mut progress, "audio", 85, "混合音轨…".to_owned());
            assert(pvs(progress@) =~= seq![audio_progress()]);
            let t = self.mix_task_exec(None);
            self.phase = Phase::Mix;
            return Step { progress, task: t };
        }
        push_progress(&mut progress, "tts", 70, "合成配音…".to_owned());
        assert(pvs(progress@) =~= seq![tts_progress()]);
        let lang = narration_lang(self.params.narration_text.as_str());
        let t = match speech_args(
            self.params.narration_text.as_str(),
            self.paths.narration.as_str(),
            lang,
            self.params.tts_voice.as_str(),
        ) {
            Ok(args) => Task::Speak(args),
            Err(e) => {
                proof {
                    assert(false);
                }
                Task::Failed(e)
            },
        };
        self.phase = Phase::Speak;
        Step { progress, task: t }
    }

    /// espeak-ng finished: mix with the narration, or without it when the
    /// synthesis failed.
    fn after_speech(&mut self, spoken: Result<(), AppError>) -> (step: Step)
        requires
            old(self).wf(),
            old(self).phase == Phase::Speak,
        ensures
            final(self).wf(),
            *final(self) == (MixRun { phase: final(self).phase, ..*old(self) }),
            advanced(
                *old(self),
                Event::Spoken(spoken),
                final(self).selected@,
                Seq::empty(),
                pvs(step.progress@),
                task_view(step.task),
                final(self).phase,
            ),
    {
        reveal(advanced);
        let mut progress: Vec<Progress> = Vec::new();
        let t = match spoken {
            Ok(()) => {
                push_progress(&mut progress, "audio", 85, "混合音轨…".to_owned());
                assert(pvs(progress@) =~= seq![audio_progress()]);
                self.mix_task_exec(Some(self.paths.narration.as_str()))
            },
            Err(e) => {
                push_progress(&mut progress, "tts", 75, tts_failed_message(&e));
                push_progress(&mut progress, "audio", 85, "混合音轨…".to_owned());
                assert(pvs(progress@) =~= seq![tts_failed_progress(e), audio_progress()]);
                self.mix_task_exec(None)
            },
        };
        self.phase = Phase::Mix;
        Step { progress, task: t }
    }
}

impl MixRun {
    /// An ffmpeg run failed: the batch stops with its error.
    fn after_failure(&mut self, e: AppError) -> (step: Step)
        requires
            old(self).wf(),
        ensures
            final(self).wf(),
            *final(self) == (MixRun { phase: final(self).phase, ..*old(self) }),
            advanced(
                *old(self),
                Event::Finished(Err(e)),
                final(self).selected@,
                Seq::empty(),
                pvs(step.progress@),
                task_view(step.task),
                final(self).phase,
            ),
    {
        reveal(advanced);
        self.phase = Phase::Finished;
        let step = Step { progress: Vec::new(), task: Task::Failed(e) };
        assert(pvs(step.progress@) =~= Seq::<ProgressView>::empty());
        step
    }

    /// The drawtext probe answered: plan the overlay accordingly.
    fn after_probe(&mut self, drawtext: bool) -> (step: Step)
        requires
            old(self).wf(),
            old(self).phase == Phase::Probe,
        ensures
            final(self).wf(),
            *final(self) == (MixRun { phase: final(self).phase, ..*old(self) }),
            advanced(
                *old(self),
                Event::FilterProbed(drawtext),
                final(self).selected@,
                Seq::empty(),
                pvs(step.progress@),
                task_view(step.task),
                final(self).phase,
            ),
    {
        reveal(advanced);
        let t = self.overlay_task_exec(drawtext);
        self.phase = Phase::Overlay;
        let step = Step { progress: Vec::new(), task: t };
        assert(pvs(step.progress@) =~= Seq::<ProgressView>::empty());
        step
    }

    /// The mix finished: the video is done; begin the next one, or end the
    /// batch.
    #[verifier::rlimit(50)]
    fn after_mix(&mut self, Ghost(e): Ghost<Event>) -> (r: (Step, Ghost<Seq<Seq<char>>>))
        requires
            (e matches Event::Finished(Ok(_))),
            old(self).wf(),
            old(self).phase == Phase::Mix,
        ensures
            final(self).wf(),
            final(self).project == old(self).project,
            final(self).params == old(self).params,
            final(self).paths == old(self).paths,
            final(self).platform == old(self).platform,
            final(self).count == old(self).count,
            results_view(final(self).outputs@) == results_view(old(self).outputs@).push(
                current_result(*old(self)),
            ),
            begins_video(*old(self), e) ==> video_drawn(
                final(self).project,
                final(self).params,
                final(self).selected@,
            ),
            advanced(
                *old(self),
                e,
                final(self).selected@,
                r.1@,
                pvs(r.0.progress@),
                task_view(r.0.task),
                final(self).phase,
            ),
    {
        reveal(advanced);
        let ghost r0 = *self;
        let i = self.outputs.len();
        let path = self.paths.outputs[i].clone();
        let mut progress: Vec<Progress> = Vec::new();
        push_progress(&mut progress, "done", 100, video_done_message(path.as_str()));
        let result = MixResult {
            output_path: path,
            duration_ms: self.duration_ms,
            clip_count: self.selected.len(),
        };
        assert(result_view(result) == current_result(r0));
        proof {
            lemma_drawn_within_budget(r0.project, r0.params, r0.selected@);
        }
        self.outputs.push(result);
        assert(results_view(self.outputs@) =~= results_view(r0.outputs@).push(current_result(r0)));
        let ghost done = seq![video_done_progress(r0.paths.outputs@[i as int]@)];
        if i + 1 < self.count {
            push_batch_progress(&mut progress, i + 1, self.count);
            assert(pvs(progress@) =~= done.push(batch_progress(i + 1, r0.count as int)));
            let ghost r1 = *self;
            let t = self.begin_video(&mut progress);
            let ghost before = done.push(batch_progress(i + 1, r0.count as int));
            let ghost trs = choose|trs: Seq<Seq<char>>|
                begun(r1, self.selected@, trs, before, pvs(progress@), task_view(t), self.phase);
            assert(begun(r1, self.selected@, trs, before, pvs(progress@), task_view(t), self.phase));
            assert(video_begin(r1, self.selected@, trs) == video_begin(r0, self.selected@, trs));
            assert(pvs(progress@) =~= advance_spec(r0, e, self.selected@, trs).0);
            let step = Step { progress, task: t };
            assert(advanced(
                r0,
                e,
                self.selected@,
                trs,
                pvs(step.progress@),
                task_view(step.task),
                self.phase,
            ));
            (step, Ghost(trs))
        } else {
            push_progress(&mut progress, "done", 100, batch_done_message(self.count));
            assert(pvs(progress@) =~= done.push(batch_done_progress(r0.count as int)));
            self.phase = Phase::Finished;
            let outputs = copy_results(&self.outputs);
            let total_count = outputs.len();
            let t = Task::Done(BatchMixResult { outputs, total_count });
            assert(advanced(
                r0,
                e,
                self.selected@,
                Seq::empty(),
                pvs(progress@),
                task_view(t),
                self.phase,
            ));
            (Step { progress, task: t }, Ghost(Seq::empty()))
        }
    }

    /// Takes the outcome of the last task and decides the next step.
    pub fn advance(&mut self, event: Event) -> (step: Step)
        requires
            old(self).wf(),
            old(self).accepts(event),
        ensures
            final(self).wf(),
            final(self).project == old(self).project,
            final(self).params == old(self).params,
            final(self).paths == old(self).paths,
            final(self).platform == old(self).platform,
            final(self).count == old(self).count,
            (old(self).phase == Phase::Mix && (event matches Event::Finished(Ok(_)))) ==> results_view(
                final(self).outputs@,
            ) == results_view(old(self).outputs@).push(current_result(*old(self))),
            !(old(self).phase == Phase::Mix && (event matches Event::Finished(Ok(_))))
                ==> final(self).outputs@ == old(self).outputs@,
            begins_video(*old(self), event) ==> video_drawn(
                final(self).project,
                final(self).params,
                final(self).selected@,
            ),
            exists|trs: Seq<Seq<char>>|
                #[trigger] advanced(
                    *old(self),
                    event,
                    final(self).selected@,
                    trs,
                    pvs(step.progress@),
                    task_view(step.task),
                    final(self).phase,
                ),
    {
        let ghost r0 = *self;
        let ghost e0 = event;
        let (step, trs) = match event {
            Event::Finished(Err(e)) => (self.after_failure(e), Ghost(Seq::empty())),
            Event::Finished(Ok(_)) => match self.phase {
                Phase::Compose => (self.after_compose(Ghost(e0)), Ghost(Seq::empty())),
                Phase::Overlay => (self.after_overlay(Ghost(e0)), Ghost(Seq::empty())),
                _ => self.after_mix(Ghost(e0)),
            },
            Event::FilterProbed(b) => (self.after_probe(b), Ghost(Seq::empty())),
            Event::Spoken(r) => (self.after_speech(r), Ghost(Seq::empty())),
        };
        assert(advanced(r0, e0, self.selected@, trs@, pvs(step.progress@), task_view(step.task), self.phase));
        step
    }
}

/// A batch that completes made `batch_size(batch_count)` videos, the `k`-th
/// written to `paths.outputs[k]`; each has at least one clip.
pub proof fn lemma_completed_batch(
    r: MixRun,
    e: Event,
    sel: Seq<Clip>,
    trs: Seq<Seq<char>>,
    after: Seq<ProgressView>,
    t: TaskView,
    phase: Phase,
)
    requires
        r.wf(),
        r.accepts(e),
        advanced(r, e, sel, trs, after, t, phase),
        t is Done,
    ensures
        t matches TaskView::Done(rs, n) && n == r.count && rs.len() == r.count && forall|k: int|
            0 <= k < rs.len() ==> {
                &&& (#[trigger] rs[k]).0 == r.paths.outputs@[k]@
                &&& rs[k].2 >= 1
            },
{
    reveal(advanced);
    let i = r.outputs@.len() as int;
    assert(r.phase == Phase::Mix && i + 1 == r.count);
    let rs = results_view(r.outputs@).push(current_result(r));
    assert forall|k: int| 0 <= k < rs.len() implies {
        &&& (#[trigger] rs[k]).0 == r.paths.outputs@[k]@
        &&& rs[k].2 >= 1
    } by {
        if k < i {
            assert(rs[k] == result_view(r.outputs@[k]));
        }
    }
}

/// While a video is being made, its clips keep within the length budget
/// unless it is a single clip, and each is an unused clip of the project
/// (the whole pool: every clip was marked unused when the batch began).
pub proof fn lemma_current_video(r: MixRun)
    requires
        r.wf(),
        r.phase != Phase::Finished,
    ensures
        !over_budget(r.selected@, r.params.max_duration_ms as int) || r.selected@.len() == 1,
        forall|j: int| 0 <= j < r.project.clips@.len() ==> !(#[trigger] r.project.clips@[j]).used,
{
    lemma_drawn_within_budget(r.project, r.params, r.selected@);
}

/// `after` is `before` with every clip marked unused, as `MixRun::start`
/// leaves the project.
pub open spec fn all_reset(before: Project, after: Project) -> bool {
    &&& after.clips@.len() == before.clips@.len()
    &&& forall|j: int|
        0 <= j < before.clips@.len() ==> #[trigger] after.clips@[j] == with_used(before.clips@[j], false)
    &&& after == (Project { clips: after.clips, ..before })
}

/// The used marks of the clips never change a batch: two projects that
/// differ only in them are reset by `MixRun::start` to the same project, so
/// the same draws are possible for both (a project whose clips are all
/// marked used does not run short of clips).
pub proof fn lemma_used_marks_do_not_matter(p1: Project, p2: Project, a1: Project, a2: Project)
    requires
        p1 == (Project { clips: p1.clips, ..p2 }),
        p1.clips@.len() == p2.clips@.len(),
        forall|j: int|
            0 <= j < p1.clips@.len() ==> with_used(#[trigger] p1.clips@[j], false) == with_used(
                p2.clips@[j],
                false,
            ),
        all_reset(p1, a1),
        all_reset(p2, a2),
    ensures
        a1.clips@ == a2.clips@,
        a1 == (Project { clips: a1.clips, ..a2 }),
        forall|params: MixParams, sel: Seq<Clip>|
            #[trigger] video_drawn(a1, params, sel) == video_drawn(a2, params, sel),
{
    assert(a1.clips@ =~= a2.clips@) by {
        assert forall|j: int| 0 <= j < a1.clips@.len() implies a1.clips@[j] == a2.clips@[j] by {
            assert(a1.clips@[j] == with_used(p1.clips@[j], false));
            assert(a2.clips@[j] == with_used(p2.clips@[j], false));
        }
    }
    assert forall|params: MixParams, sel: Seq<Clip>|
        #[trigger] video_drawn(a1, params, sel) == video_drawn(a2, params, sel) by {
        let picks = params.picks_per_scene as int;
        assert forall|draws: Seq<Seq<usize>>|
            #[trigger] valid_draws(a1, picks, draws) == valid_draws(a2, picks, draws) by {
        }
        assert forall|drawn: Seq<Clip>|
            #[trigger] is_selection(a1, picks, drawn) == is_selection(a2, picks, drawn) by {
            if is_selection(a1, picks, drawn) {
                let d = choose|d: Seq<Seq<usize>>|
                    #![trigger assemble(a1.clips@, d)]
                    valid_draws(a1, picks, d) && drawn == assemble(a1.clips@, d);
                assert(valid_draws(a2, picks, d));
                assert(assemble(a2.clips@, d) == assemble(a1.clips@, d));
            }
            if is_selection(a2, picks, drawn) {
                let d = choose|d: Seq<Seq<usize>>|
                    #![trigger assemble(a2.clips@, d)]
                    valid_draws(a2, picks, d) && drawn == assemble(a2.clips@, d);
                assert(valid_draws(a1, picks, d));
                assert(assemble(a2.clips@, d) == assemble(a1.clips@, d));
            }
        }
    }
}

} // verus!
