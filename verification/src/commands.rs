//! The operations the front end asks for, on the project they edit.
use crate::error::AppError;
use crate::text::str_eq;
use crate::types::{BatchMixResult, Clip, MixParams, Project, RawAsset, Template};
use vstd::prelude::*;

verus! {

/// `scenes` holds a scene named `name`.
pub open spec fn has_scene(scenes: Seq<String>, name: Seq<char>) -> bool {
    exists|i: int| 0 <= i < scenes.len() && (#[trigger] scenes[i])@ == name
}

/// Adds a scene; a scene of the same name must not exist yet.
pub fn add_scene(project: &mut Project, name: String) -> (r: Result<(), AppError>)
    ensures
        has_scene(old(project).scenes@, name@) ==> {
            &&& r matches Err(AppError::InvalidArgument(m)) && m@ == "场景已存在: "@ + name@
            &&& *final(project) == *old(project)
        },
        !has_scene(old(project).scenes@, name@) ==> {
            &&& r is Ok
            &&& final(project).scenes@ == old(project).scenes@.push(name)
            &&& *final(project) == (Project { scenes: final(project).scenes, ..*old(project) })
        },
{
    let mut i: usize = 0;
    while i < project.scenes.len()
        invariant
            i <= project.scenes@.len(),
            forall|k: int| 0 <= k < i ==> (#[trigger] project.scenes@[k])@ != name@,
        decreases project.scenes.len() - i,
    {
        if str_eq(project.scenes[i].as_str(), name.as_str()) {
            let mut m = String::new();
            m.append("场景已存在: ");
            m.append(name.as_str());
            return Err(AppError::InvalidArgument(m));
        }
        i = i + 1;
    }
    project.scenes.push(name);
    Ok(())
}

/// Removes a scene together with its raw assets and clips.
pub fn remove_scene(project: &mut Project, name: String)
    ensures
        final(project).scenes@ == old(project).scenes@.filter(|s: String| s@ != name@),
        final(project).raw_assets@ == old(project).raw_assets@.filter(
            |a: RawAsset| a.scene_id@ != name@,
        ),
        final(project).clips@ == old(project).clips@.filter(|c: Clip| c.scene_id@ != name@),
        *final(project) == (Project {
            scenes: final(project).scenes,
            raw_assets: final(project).raw_assets,
            clips: final(project).clips,
            ..*old(project)
        }),
{
    let ghost ps = |s: String| s@ != name@;
    let mut scenes: Vec<String> = Vec::new();
    let mut i: usize = 0;
    while i < project.scenes.len()
        invariant
            i <= project.scenes@.len(),
            *project == *old(project),
            ps == (|s: String| s@ != name@),
            scenes@ == project.scenes@.take(i as int).filter(ps),
        decreases project.scenes.len() - i,
    {
        reveal_with_fuel(Seq::<_>::filter, 1);
        assert(project.scenes@.take(i + 1).drop_last() =~= project.scenes@.take(i as int));
        if !str_eq(project.scenes[i].as_str(), name.as_str()) {
            scenes.push(project.scenes[i].clone());
        }
        i = i + 1;
    }
    assert(project.scenes@.take(project.scenes@.len() as int) =~= project.scenes@);
    let ghost pa = |a: RawAsset| a.scene_id@ != name@;
    let mut assets: Vec<RawAsset> = Vec::new();
    let mut i: usize = 0;
    while i < project.raw_assets.len()
        invariant
            i <= project.raw_assets@.len(),
            *project == *old(project),
            pa == (|a: RawAsset| a.scene_id@ != name@),
            assets@ == project.raw_assets@.take(i as int).filter(pa),
        decreases project.raw_assets.len() - i,
    {
        reveal_with_fuel(Seq::<_>::filter, 1);
        assert(project.raw_assets@.take(i + 1).drop_last() =~= project.raw_assets@.take(i as int));
        if !str_eq(project.raw_assets[i].scene_id.as_str(), name.as_str()) {
            assets.push(project.raw_assets[i].copy());
        }
        i = i + 1;
    }
    assert(project.raw_assets@.take(project.raw_assets@.len() as int) =~= project.raw_assets@);
    let ghost pc = |c: Clip| c.scene_id@ != name@;
    let mut clips: Vec<Clip> = Vec::new();
    let mut i: usize = 0;
    while i < project.clips.len()
        invariant
            i <= project.clips@.len(),
            *project == *old(project),
            pc == (|c: Clip| c.scene_id@ != name@),
            clips@ == project.clips@.take(i as int).filter(pc),
        decreases project.clips.len() - i,
    {
        reveal_with_fuel(Seq::<_>::filter, 1);
        assert(project.clips@.take(i + 1).drop_last() =~= project.clips@.take(i as int));
        if !str_eq(project.clips[i].scene_id.as_str(), name.as_str()) {
            clips.push(project.clips[i].copy());
        }
        i = i + 1;
    }
    assert(project.clips@.take(project.clips@.len() as int) =~= project.clips@);
    project.scenes = scenes;
    project.raw_assets = assets;
    project.clips = clips;
}

/// The scene `scene_id` must exist.
pub fn require_scene(project: &Project, scene_id: &str) -> (r: Result<(), AppError>)
    ensures
        has_scene(project.scenes@, scene_id@) <==> r is Ok,
        r matches Err(e) ==> (e matches AppError::NotFound(m) && m@ == "场景不存在: "@ + scene_id@),
{
    let mut i: usize = 0;
    while i < project.scenes.len()
        invariant
            i <= project.scenes@.len(),
            forall|k: int| 0 <= k < i ==> (#[trigger] project.scenes@[k])@ != scene_id@,
        decreases project.scenes.len() - i,
    {
        if str_eq(project.scenes[i].as_str(), scene_id) {
            return Ok(());
        }
        i = i + 1;
    }
    let mut m = String::new();
    m.append("场景不存在: ");
    m.append(scene_id);
    Err(AppError::NotFound(m))
}

/// The raw assets for files of a scene, given with their measured lengths.
pub open spec fn assets_for(scene_id: String, files: Seq<(String, i32)>) -> Seq<RawAsset> {
    files.map_values(|f: (String, i32)| RawAsset { path: f.0, duration_ms: f.1, scene_id: scene_id })
}

/// Adds raw assets (path and measured length) to an existing scene.
pub fn import_assets(project: &mut Project, scene_id: String, files: Vec<(String, i32)>) -> (r: Result<(), AppError>)
    ensures
        has_scene(old(project).scenes@, scene_id@) <==> r is Ok,
        r matches Err(e) ==> (e matches AppError::NotFound(m) && m@ == "场景不存在: "@ + scene_id@)
            && *final(project) == *old(project),
        r is Ok ==> final(project).raw_assets@ == old(project).raw_assets@ + assets_for(scene_id, files@)
            && *final(project) == (Project { raw_assets: final(project).raw_assets, ..*old(project) }),
{
    require_scene(project, scene_id.as_str())?;
    let mut i: usize = 0;
    while i < files.len()
        invariant
            i <= files@.len(),
            *project == (Project { raw_assets: project.raw_assets, ..*old(project) }),
            project.raw_assets@ == old(project).raw_assets@ + assets_for(scene_id, files@.take(i as int)),
        decreases files.len() - i,
    {
        let a = RawAsset {
            path: files[i].0.clone(),
            duration_ms: files[i].1,
            scene_id: scene_id.clone(),
        };
        project.raw_assets.push(a);
        assert(assets_for(scene_id, files@.take(i + 1)) =~= assets_for(scene_id, files@.take(i as int)).push(a));
        i = i + 1;
    }
    assert(files@.take(files@.len() as int) =~= files@);
    Ok(())
}

/// The output resolution of an orientation: 1920x1080 for `"landscape"`,
/// 1080x1920 otherwise.
pub fn output_resolution(orientation: &str) -> (r: (u32, u32))
    ensures
        r == (if orientation@ == "landscape"@ { (1920u32, 1080u32) } else { (1080u32, 1920u32) }),
{
    if str_eq(orientation, "landscape") {
        (1920, 1080)
    } else {
        (1080, 1920)
    }
}

/// Sets the clip length and orientation for a new pre-processing run and
/// drops the old clips.
pub fn prepare_preprocess(project: &mut Project, clip_duration_ms: i32, orientation: String)
    ensures
        final(project).clip_duration_ms == clip_duration_ms,
        final(project).orientation == orientation,
        final(project).output_resolution == (if orientation@ == "landscape"@ {
            (1920u32, 1080u32)
        } else {
            (1080u32, 1920u32)
        }),
        final(project).clips@.len() == 0,
        *final(project) == (Project {
            clip_duration_ms: final(project).clip_duration_ms,
            orientation: final(project).orientation,
            output_resolution: final(project).output_resolution,
            clips: final(project).clips,
            ..*old(project)
        }),
{
    project.clip_duration_ms = clip_duration_ms;
    project.output_resolution = output_resolution(orientation.as_str());
    project.orientation = orientation;
    clean_clips(project);
}

/// Drops all clips (after their files were removed).
pub fn clean_clips(project: &mut Project)
    ensures
        final(project).clips@.len() == 0,
        *final(project) == (Project { clips: final(project).clips, ..*old(project) }),
{
    project.clips = Vec::new();
}

/// An identical copy of an optional string.
fn copy_opt(o: &Option<String>) -> (r: Option<String>)
    ensures
        r == *o,
{
    match o {
        Some(s) => Some(s.clone()),
        None => None,
    }
}

/// Stores the parameters of a mix request in the project; the clip length
/// is taken from the request only when the project has none.
pub fn apply_mix_params(project: &mut Project, params: &MixParams)
    ensures
        final(project).picks_per_scene == params.picks_per_scene,
        final(project).title_text == params.title_text,
        final(project).title_position == params.title_position,
        final(project).title_font_size == params.title_font_size,
        final(project).title_style == params.title_style,
        final(project).title2_text == params.title2_text,
        final(project).title2_position == params.title2_position,
        final(project).title2_font_size == params.title2_font_size,
        final(project).title2_style == params.title2_style,
        final(project).title3_text == params.title3_text,
        final(project).title3_position == params.title3_position,
        final(project).title3_font_size == params.title3_font_size,
        final(project).title3_style == params.title3_style,
        final(project).subtitle_position == params.subtitle_position,
        final(project).narration_text == params.narration_text,
        final(project).bg_music_path == params.bg_music_path,
        final(project).max_duration_ms == params.max_duration_ms,
        final(project).original_volume_milli == params.original_volume_milli,
        final(project).narration_volume_milli == params.narration_volume_milli,
        final(project).bgm_volume_milli == params.bgm_volume_milli,
        final(project).tts_voice == params.tts_voice,
        final(project).batch_count == params.batch_count,
        final(project).auto_subtitle == params.auto_subtitle,
        final(project).trans_ms == params.trans_ms,
        final(project).bgm_fade_ms == params.bgm_fade_ms,
        final(project).clip_duration_ms == (if old(project).clip_duration_ms <= 0 {
            params.clip_duration_ms
        } else {
            old(project).clip_duration_ms
        }),
        final(project).name == old(project).name,
        final(project).scenes == old(project).scenes,
        final(project).raw_assets == old(project).raw_assets,
        final(project).clips == old(project).clips,
        final(project).orientation == old(project).orientation,
        final(project).output_resolution == old(project).output_resolution,
        final(project).output_fps == old(project).output_fps,
        final(project).templates == old(project).templates,
        final(project).work_dir == old(project).work_dir,
        final(project).last_output == old(project).last_output,
        final(project).batch_outputs == old(project).batch_outputs,
        final(project).project_file == old(project).project_file,
{
    project.picks_per_scene = params.picks_per_scene;
    project.title_text = params.title_text.clone();
    project.title_position = params.title_position.clone();
    project.title_font_size = params.title_font_size;
    project.title_style = params.title_style.clone();
    project.title2_text = params.title2_text.clone();
    project.title2_position = params.title2_position.clone();
    project.title2_font_size = params.title2_font_size;
    project.title2_style = params.title2_style.clone();
    project.title3_text = params.title3_text.clone();
    project.title3_position = params.title3_position.clone();
    project.title3_font_size = params.title3_font_size;
    project.title3_style = params.title3_style.clone();
    project.subtitle_position = params.subtitle_position.clone();
    project.narration_text = params.narration_text.clone();
    project.bg_music_path = copy_opt(&params.bg_music_path);
    project.max_duration_ms = params.max_duration_ms;
    project.original_volume_milli = params.original_volume_milli;
    project.narration_volume_milli = params.narration_volume_milli;
    project.bgm_volume_milli = params.bgm_volume_milli;
    project.tts_voice = params.tts_voice.clone();
    project.batch_count = params.batch_count;
    project.auto_subtitle = params.auto_subtitle;
    project.trans_ms = params.trans_ms;
    project.bgm_fade_ms = params.bgm_fade_ms;
    if project.clip_duration_ms <= 0 {
        project.clip_duration_ms = params.clip_duration_ms;
    }
}

/// Records the outputs of a batch: the first as the last output (when there
/// is one), all of them as the batch outputs.
pub fn record_outputs(project: &mut Project, result: &BatchMixResult)
    ensures
        final(project).last_output == (if result.outputs@.len() > 0 {
            Some(result.outputs@[0].output_path)
        } else {
            old(project).last_output
        }),
        final(project).batch_outputs@ == result.outputs@.map_values(|r: crate::types::MixResult| r.output_path),
        *final(project) == (Project {
            last_output: final(project).last_output,
            batch_outputs: final(project).batch_outputs,
            ..*old(project)
        }),
{
    if result.outputs.len() > 0 {
        project.last_output = Some(result.outputs[0].output_path.clone());
    }
    let mut outs: Vec<String> = Vec::new();
    let mut i: usize = 0;
    while i < result.outputs.len()
        invariant
            i <= result.outputs@.len(),
            outs@ == result.outputs@.take(i as int).map_values(|r: crate::types::MixResult| r.output_path),
        decreases result.outputs.len() - i,
    {
        outs.push(result.outputs[i].output_path.clone());
        assert(result.outputs@.take(i + 1).map_values(|r: crate::types::MixResult| r.output_path)
            =~= result.outputs@.take(i as int).map_values(|r: crate::types::MixResult| r.output_path).push(
            result.outputs@[i as int].output_path,
        ));
        i = i + 1;
    }
    assert(result.outputs@.take(result.outputs@.len() as int) =~= result.outputs@);
    project.batch_outputs = outs;
}

// ---------------------------------------------------------------------------
// Templates
// ---------------------------------------------------------------------------

/// Whether a template is not named `name`.
pub open spec fn not_named(name: Seq<char>) -> spec_fn(Template) -> bool {
    |t: Template| t.name@ != name
}

/// The templates not named `name`, in order.
pub open spec fn templates_without(ts: Seq<Template>, name: Seq<char>) -> Seq<Template> {
    ts.filter(not_named(name))
}

/// Position of the first template named `name`, if any.
pub open spec fn find_template(ts: Seq<Template>, name: Seq<char>) -> Option<int>
    decreases ts.len(),
{
    if ts.len() == 0 {
        None
    } else {
        match find_template(ts.drop_last(), name) {
            Some(i) => Some(i),
            None => if ts.last().name@ == name {
                Some(ts.len() - 1)
            } else {
                None
            },
        }
    }
}

fn templates_without_exec(ts: &Vec<Template>, name: &str) -> (r: Vec<Template>)
    ensures
        r@ == templates_without(ts@, name@),
{
    let ghost pt = not_named(name@);
    let mut r: Vec<Template> = Vec::new();
    let mut i: usize = 0;
    while i < ts.len()
        invariant
            i <= ts@.len(),
            pt == not_named(name@),
            r@ == ts@.take(i as int).filter(pt),
        decreases ts.len() - i,
    {
        reveal_with_fuel(Seq::<_>::filter, 1);
        assert(ts@.take(i + 1).drop_last() =~= ts@.take(i as int));
        if !str_eq(ts[i].name.as_str(), name) {
            r.push(ts[i].copy());
        }
        i = i + 1;
    }
    assert(ts@.take(ts@.len() as int) =~= ts@);
    r
}

/// Saves a template, replacing any template of the same name.
pub fn save_template(project: &mut Project, template: Template)
    ensures
        final(project).templates@ == templates_without(old(project).templates@, template.name@).push(
            template,
        ),
        *final(project) == (Project { templates: final(project).templates, ..*old(project) }),
{
    let mut ts = templates_without_exec(&project.templates, template.name.as_str());
    ts.push(template);
    project.templates = ts;
}

/// Deletes the templates named `name`.
pub fn delete_template(project: &mut Project, name: String)
    ensures
        final(project).templates@ == templates_without(old(project).templates@, name@),
        *final(project) == (Project { templates: final(project).templates, ..*old(project) }),
{
    project.templates = templates_without_exec(&project.templates, name.as_str());
}

/// The project with a template's settings applied.
pub open spec fn with_template(p: Project, t: Template) -> Project {
    Project {
        clip_duration_ms: t.clip_duration_ms,
        picks_per_scene: t.picks_per_scene,
        max_duration_ms: t.max_duration_ms,
        orientation: t.orientation,
        title_font_size: t.title_font_size,
        title_style: t.title_style,
        title2_font_size: t.title2_font_size,
        title2_style: t.title2_style,
        title3_font_size: t.title3_font_size,
        title3_style: t.title3_style,
        original_volume_milli: t.original_volume_milli,
        narration_volume_milli: t.narration_volume_milli,
        bgm_volume_milli: t.bgm_volume_milli,
        tts_voice: t.tts_voice,
        batch_count: t.batch_count,
        auto_subtitle: t.auto_subtitle,
        trans_ms: t.trans_ms,
        bgm_fade_ms: t.bgm_fade_ms,
        ..p
    }
}

/// Every setting a template stores is the project's setting: length of a
/// clip, clips per scene, length budget, orientation, title sizes and
/// styles, the three volumes, voice, batch size, automatic subtitles,
/// transition and fade lengths.
pub open spec fn template_settings_applied(p: Project, t: Template) -> bool {
    &&& p.clip_duration_ms == t.clip_duration_ms
    &&& p.picks_per_scene == t.picks_per_scene
    &&& p.max_duration_ms == t.max_duration_ms
    &&& p.orientation == t.orientation
    &&& p.title_font_size == t.title_font_size
    &&& p.title_style == t.title_style
    &&& p.title2_font_size == t.title2_font_size
    &&& p.title2_style == t.title2_style
    &&& p.title3_font_size == t.title3_font_size
    &&& p.title3_style == t.title3_style
    &&& p.original_volume_milli == t.original_volume_milli
    &&& p.narration_volume_milli == t.narration_volume_milli
    &&& p.bgm_volume_milli == t.bgm_volume_milli
    &&& p.tts_voice == t.tts_voice
    &&& p.batch_count == t.batch_count
    &&& p.auto_subtitle == t.auto_subtitle
    &&& p.trans_ms == t.trans_ms
    &&& p.bgm_fade_ms == t.bgm_fade_ms
}

/// Applying a template sets each stored setting to the template's value and
/// leaves the rest of the project (its name, scenes, footage, clips, texts,
/// positions, output format, templates and files) as it was.
pub proof fn lemma_template_applies_its_settings(p: Project, t: Template)
    ensures
        template_settings_applied(with_template(p, t), t),
        with_template(p, t).max_duration_ms == t.max_duration_ms,
        with_template(p, t).name == p.name,
        with_template(p, t).scenes == p.scenes,
        with_template(p, t).raw_assets == p.raw_assets,
        with_template(p, t).clips == p.clips,
        with_template(p, t).title_text == p.title_text,
        with_template(p, t).title2_text == p.title2_text,
        with_template(p, t).title3_text == p.title3_text,
        with_template(p, t).narration_text == p.narration_text,
        with_template(p, t).output_resolution == p.output_resolution,
        with_template(p, t).output_fps == p.output_fps,
        with_template(p, t).templates == p.templates,
        with_template(p, t).work_dir == p.work_dir,
{
}

/// Applies the first template named `name` to the project and returns it.
pub fn apply_template(project: &mut Project, name: String) -> (r: Result<Template, AppError>)
    ensures
        match find_template(old(project).templates@, name@) {
            None => {
                &&& r matches Err(AppError::NotFound(m)) && m@ == "模板不存在: "@ + name@
                &&& *final(project) == *old(project)
            },
            Some(i) => {
                &&& r matches Ok(t) && t == old(project).templates@[i]
                &&& *final(project) == with_template(*old(project), old(project).templates@[i])
                &&& template_settings_applied(*final(project), old(project).templates@[i])
            },
        },
{
    let mut i: usize = 0;
    while i < project.templates.len()
        invariant
            i <= project.templates@.len(),
            *project == *old(project),
            find_template(project.templates@.take(i as int), name@) is None,
        decreases project.templates.len() - i,
    {
        assert(project.templates@.take(i + 1).drop_last() =~= project.templates@.take(i as int));
        if str_eq(project.templates[i].name.as_str(), name.as_str()) {
            proof {
                lemma_find_prefix(project.templates@, name@, i + 1);
            }
            let t = project.templates[i].copy();
            project.clip_duration_ms = t.clip_duration_ms;
            project.picks_per_scene = t.picks_per_scene;
            project.max_duration_ms = t.max_duration_ms;
            project.orientation = t.orientation.clone();
            project.title_font_size = t.title_font_size;
            project.title_style = t.title_style.clone();
            project.title2_font_size = t.title2_font_size;
            project.title2_style = t.title2_style.clone();
            project.title3_font_size = t.title3_font_size;
            project.title3_style = t.title3_style.clone();
            project.original_volume_milli = t.original_volume_milli;
            project.narration_volume_milli = t.narration_volume_milli;
            project.bgm_volume_milli = t.bgm_volume_milli;
            project.tts_voice = t.tts_voice.clone();
            project.batch_count = t.batch_count;
            project.auto_subtitle = t.auto_subtitle;
            project.trans_ms = t.trans_ms;
            project.bgm_fade_ms = t.bgm_fade_ms;
            return Ok(t);
        }
        i = i + 1;
    }
    assert(project.templates@.take(project.templates@.len() as int) =~= project.templates@);
    let mut m = String::new();
    m.append("模板不存在: ");
    m.append(name.as_str());
    Err(AppError::NotFound(m))
}

/// Finding in a list that starts with a prefix finds what the prefix finds.
proof fn lemma_find_prefix(ts: Seq<Template>, name: Seq<char>, n: int)
    requires
        0 <= n <= ts.len(),
        find_template(ts.take(n), name) is Some,
    ensures
        find_template(ts, name) == find_template(ts.take(n), name),
    decreases ts.len() - n,
{
    if n < ts.len() {
        assert(ts.take(n + 1).drop_last() =~= ts.take(n));
        lemma_find_prefix(ts, name, n + 1);
    } else {
        assert(ts.take(n) =~= ts);
    }
}

/// No template of `ts` is named `name`: finding it finds nothing.
proof fn lemma_find_absent(ts: Seq<Template>, name: Seq<char>)
    requires
        forall|i: int| 0 <= i < ts.len() ==> (#[trigger] ts[i]).name@ != name,
    ensures
        find_template(ts, name) is None,
    decreases ts.len(),
{
    if ts.len() > 0 {
        lemma_find_absent(ts.drop_last(), name);
    }
}

/// A template just saved is the one `apply_template` finds under its name.
pub proof fn lemma_saved_template_applies(ts: Seq<Template>, t: Template)
    ensures
        ({
            let saved = templates_without(ts, t.name@).push(t);
            &&& find_template(saved, t.name@) == Some((saved.len() - 1) as int)
            &&& saved[saved.len() - 1] == t
        }),
{
    let kept = templates_without(ts, t.name@);
    let saved = kept.push(t);
    assert forall|i: int| 0 <= i < kept.len() implies (#[trigger] kept[i]).name@ != t.name@ by {
        ts.lemma_filter_pred(not_named(t.name@), i);
    }
    lemma_find_absent(kept, t.name@);
    assert(saved.drop_last() =~= kept);
}

/// After `delete_template(name)`, no template is named `name`: applying it
/// gives `NotFound`.
pub proof fn lemma_deleted_template_gone(ts: Seq<Template>, name: Seq<char>)
    ensures
        find_template(templates_without(ts, name), name) is None,
{
    let kept = templates_without(ts, name);
    assert forall|i: int| 0 <= i < kept.len() implies (#[trigger] kept[i]).name@ != name by {
        ts.lemma_filter_pred(not_named(name), i);
    }
    lemma_find_absent(kept, name);
}

} // verus!
