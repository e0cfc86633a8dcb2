//! The project model: scenes, raw assets, clips, templates and the mix
//! parameters.
//!
//! Time spans are held as whole milliseconds (`*_ms`) and audio volumes as
//! thousandths of full scale (`*_milli`); file paths are held as text.
use vstd::prelude::*;

verus! {

/// A raw video imported by the user, belonging to one scene.
#[derive(Debug)]
pub struct RawAsset {
    pub path: String,
    pub duration_ms: i32,
    pub scene_id: String,
}

/// A fixed-length piece cut out of a raw asset.
#[derive(Debug)]
pub struct Clip {
    pub path: String,
    pub duration_ms: i32,
    pub scene_id: String,
    pub used: bool,
}

impl RawAsset {
    /// An identical copy.
    pub fn copy(&self) -> (r: RawAsset)
        ensures
            r == *self,
    {
        RawAsset {
            path: self.path.clone(),
            duration_ms: self.duration_ms,
            scene_id: self.scene_id.clone(),
        }
    }
}

impl Clip {
    /// An identical copy.
    pub fn copy(&self) -> (r: Clip)
        ensures
            r == *self,
    {
        Clip {
            path: self.path.clone(),
            duration_ms: self.duration_ms,
            scene_id: self.scene_id.clone(),
            used: self.used,
        }
    }
}

/// A saved set of frequently used parameters.
#[derive(Debug)]
pub struct Template {
    pub name: String,
    pub clip_duration_ms: i32,
    pub picks_per_scene: usize,
    pub max_duration_ms: i32,
    pub orientation: String,
    pub title_font_size: u32,
    pub title_style: String,
    pub title2_font_size: u32,
    pub title2_style: String,
    pub title3_font_size: u32,
    pub title3_style: String,
    pub original_volume_milli: i32,
    pub narration_volume_milli: i32,
    pub bgm_volume_milli: i32,
    pub tts_voice: String,
    pub batch_count: u32,
    pub auto_subtitle: bool,
    pub trans_ms: i32,
    pub bgm_fade_ms: i32,
}

impl Template {
    /// An identical copy.
    pub fn copy(&self) -> (r: Template)
        ensures
            r == *self,
    {
        Template {
            name: self.name.clone(),
            clip_duration_ms: self.clip_duration_ms,
            picks_per_scene: self.picks_per_scene,
            max_duration_ms: self.max_duration_ms,
            orientation: self.orientation.clone(),
            title_font_size: self.title_font_size,
            title_style: self.title_style.clone(),
            title2_font_size: self.title2_font_size,
            title2_style: self.title2_style.clone(),
            title3_font_size: self.title3_font_size,
            title3_style: self.title3_style.clone(),
            original_volume_milli: self.original_volume_milli,
            narration_volume_milli: self.narration_volume_milli,
            bgm_volume_milli: self.bgm_volume_milli,
            tts_voice: self.tts_voice.clone(),
            batch_count: self.batch_count,
            auto_subtitle: self.auto_subtitle,
            trans_ms: self.trans_ms,
            bgm_fade_ms: self.bgm_fade_ms,
        }
    }
}

impl Default for Template {
    fn default() -> (t: Template)
        ensures
            t.name@ == "默认模板"@,
            t.clip_duration_ms == 3000,
            t.picks_per_scene == 1,
            t.max_duration_ms == 60000,
            t.orientation@ == "portrait"@,
            t.title_font_size == 48,
            t.title_style@ == "simple"@,
            t.title2_font_size == 48,
            t.title2_style@ == "simple"@,
            t.title3_font_size == 48,
            t.title3_style@ == "simple"@,
            t.original_volume_milli == 80,
            t.narration_volume_milli == 1000,
            t.bgm_volume_milli == 300,
            t.tts_voice@ == "auto"@,
            t.batch_count == 1,
            !t.auto_subtitle,
            t.trans_ms == 500,
            t.bgm_fade_ms == 1500,
    {
        Template {
            name: "默认模板".to_owned(),
            clip_duration_ms: 3000,
            picks_per_scene: 1,
            max_duration_ms: 60000,
            orientation: "portrait".to_owned(),
            title_font_size: 48,
            title_style: "simple".to_owned(),
            title2_font_size: 48,
            title2_style: "simple".to_owned(),
            title3_font_size: 48,
            title3_style: "simple".to_owned(),
            original_volume_milli: 80,
            narration_volume_milli: 1000,
            bgm_volume_milli: 300,
            tts_voice: "auto".to_owned(),
            batch_count: 1,
            auto_subtitle: false,
            trans_ms: 500,
            bgm_fade_ms: 1500,
        }
    }
}

/// Default subtitle position, as `"x,y"` percentages.
pub fn default_subtitle_position() -> (s: String)
    ensures
        s@ == "50,95"@,
{
    "50,95".to_owned()
}

/// Default orientation.
pub fn default_orientation() -> (s: String)
    ensures
        s@ == "portrait"@,
{
    "portrait".to_owned()
}

/// Default volume of the clips' own sound, in thousandths.
pub fn default_original_volume() -> (v: i32)
    ensures
        v == 80,
{
    80
}

/// Default volume of the narration, in thousandths.
pub fn default_narration_volume() -> (v: i32)
    ensures
        v == 1000,
{
    1000
}

/// Default volume of the background music, in thousandths.
pub fn default_bgm_volume() -> (v: i32)
    ensures
        v == 300,
{
    300
}

/// Default voice style.
pub fn default_tts_voice() -> (s: String)
    ensures
        s@ == "auto"@,
{
    "auto".to_owned()
}

/// Default number of videos per batch.
pub fn default_batch_count() -> (n: u32)
    ensures
        n == 1,
{
    1
}

/// Default title font size.
pub fn default_title_font_size() -> (n: u32)
    ensures
        n == 48,
{
    48
}

/// Default title style.
pub fn default_title_style() -> (s: String)
    ensures
        s@ == "simple"@,
{
    "simple".to_owned()
}

/// Automatic subtitles are off by default.
pub fn default_auto_subtitle() -> (b: bool)
    ensures
        !b,
{
    false
}

/// Default transition length, in milliseconds.
pub fn default_trans_ms() -> (v: i32)
    ensures
        v == 500,
{
    500
}

/// Default background-music fade length, in milliseconds.
pub fn default_bgm_fade_ms() -> (v: i32)
    ensures
        v == 1500,
{
    1500
}

/// The whole state of a project.
#[derive(Debug)]
pub struct Project {
    pub name: String,
    pub scenes: Vec<String>,
    pub raw_assets: Vec<RawAsset>,
    pub clips: Vec<Clip>,
    pub clip_duration_ms: i32,
    pub picks_per_scene: usize,
    pub title_text: String,
    pub title_position: String,
    pub title_font_size: u32,
    pub title_style: String,
    pub title2_text: String,
    pub title2_position: String,
    pub title2_font_size: u32,
    pub title2_style: String,
    pub title3_text: String,
    pub title3_position: String,
    pub title3_font_size: u32,
    pub title3_style: String,
    pub subtitle_position: String,
    pub narration_text: String,
    pub bg_music_path: Option<String>,
    /// `"portrait"` (1080x1920) or `"landscape"` (1920x1080).
    pub orientation: String,
    pub output_resolution: (u32, u32),
    pub output_fps: u32,
    pub max_duration_ms: i32,
    pub original_volume_milli: i32,
    pub narration_volume_milli: i32,
    pub bgm_volume_milli: i32,
    pub tts_voice: String,
    /// Number of videos per batch (1..=50 are used).
    pub batch_count: u32,
    pub auto_subtitle: bool,
    pub trans_ms: i32,
    pub bgm_fade_ms: i32,
    pub templates: Vec<Template>,
    pub work_dir: Option<String>,
    pub last_output: Option<String>,
    pub batch_outputs: Vec<String>,
    pub project_file: Option<String>,
}

impl Default for Project {
    fn default() -> (p: Project)
        ensures
            p.name@ == Seq::<char>::empty(),
            p.scenes@.len() == 0,
            p.raw_assets@.len() == 0,
            p.clips@.len() == 0,
            p.clip_duration_ms == 3000,
            p.picks_per_scene == 1,
            p.title_text@ == Seq::<char>::empty(),
            p.title_position@ == "5,5"@,
            p.title_font_size == 48,
            p.title_style@ == "simple"@,
            p.title2_text@ == Seq::<char>::empty(),
            p.title2_position@ == Seq::<char>::empty(),
            p.title2_font_size == 48,
            p.title2_style@ == "simple"@,
            p.title3_text@ == Seq::<char>::empty(),
            p.title3_position@ == Seq::<char>::empty(),
            p.title3_font_size == 48,
            p.title3_style@ == "simple"@,
            p.subtitle_position@ == "50,95"@,
            p.narration_text@ == Seq::<char>::empty(),
            p.bg_music_path is None,
            p.orientation@ == "portrait"@,
            p.output_resolution == (1080u32, 1920u32),
            p.output_fps == 30,
            p.max_duration_ms == 60000,
            p.original_volume_milli == 80,
            p.narration_volume_milli == 1000,
            p.bgm_volume_milli == 300,
            p.tts_voice@ == "auto"@,
            p.batch_count == 1,
            !p.auto_subtitle,
            p.trans_ms == 500,
            p.bgm_fade_ms == 1500,
            p.templates@.len() == 0,
            p.work_dir is None,
            p.last_output is None,
            p.batch_outputs@.len() == 0,
            p.project_file is None,
    {
        Project {
            name: String::new(),
            scenes: Vec::new(),
            raw_assets: Vec::new(),
            clips: Vec::new(),
            clip_duration_ms: 3000,
            picks_per_scene: 1,
            title_text: String::new(),
            title_position: "5,5".to_owned(),
            title_font_size: 48,
            title_style: "simple".to_owned(),
            title2_text: String::new(),
            title2_position: String::new(),
            title2_font_size: 48,
            title2_style: "simple".to_owned(),
            title3_text: String::new(),
            title3_position: String::new(),
            title3_font_size: 48,
            title3_style: "simple".to_owned(),
            subtitle_position: "50,95".to_owned(),
            narration_text: String::new(),
            bg_music_path: None,
            orientation: "portrait".to_owned(),
            output_resolution: (1080, 1920),
            output_fps: 30,
            max_duration_ms: 60000,
            original_volume_milli: 80,
            narration_volume_milli: 1000,
            bgm_volume_milli: 300,
            tts_voice: "auto".to_owned(),
            batch_count: 1,
            auto_subtitle: false,
            trans_ms: 500,
            bgm_fade_ms: 1500,
            templates: Vec::new(),
            work_dir: None,
            last_output: None,
            batch_outputs: Vec::new(),
            project_file: None,
        }
    }
}

/// The parameters the front end sends with a mix request.
#[derive(Debug)]
pub struct MixParams {
    pub clip_duration_ms: i32,
    pub picks_per_scene: usize,
    pub title_text: String,
    pub title_position: String,
    pub title_font_size: u32,
    pub title_style: String,
    pub title2_text: String,
    pub title2_position: String,
    pub title2_font_size: u32,
    pub title2_style: String,
    pub title3_text: String,
    pub title3_position: String,
    pub title3_font_size: u32,
    pub title3_style: String,
    pub subtitle_position: String,
    pub narration_text: String,
    pub bg_music_path: Option<String>,
    pub max_duration_ms: i32,
    pub original_volume_milli: i32,
    pub narration_volume_milli: i32,
    pub bgm_volume_milli: i32,
    pub tts_voice: String,
    pub batch_count: u32,
    pub auto_subtitle: bool,
    pub trans_ms: i32,
    pub bgm_fade_ms: i32,
}

/// Summary of one generated video.
#[derive(Debug)]
pub struct MixResult {
    pub output_path: String,
    pub duration_ms: i128,
    pub clip_count: usize,
}

impl MixResult {
    /// A copy of the summary.
    pub fn copy(&self) -> (r: MixResult)
        ensures
            r == *self,
    {
        MixResult {
            output_path: self.output_path.clone(),
            duration_ms: self.duration_ms,
            clip_count: self.clip_count,
        }
    }
}

/// Summary of a batch of generated videos.
#[derive(Debug)]
pub struct BatchMixResult {
    pub outputs: Vec<MixResult>,
    pub total_count: usize,
}

} // verus!
