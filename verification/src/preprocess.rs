//! Pre-processing: each raw asset is cut into pieces of equal length, all
//! re-encoded to the project's resolution and frame rate (H.264 + AAC).
//!
//! Portrait output crops the centre of the picture (no black bars); landscape
//! output scales and pads. Loudness is normalised (EBU R128) and contrast and
//! saturation lifted slightly.
use crate::binary64::{
    div_f64, lemma_log2_bounds, nearest_f64_exec, secs_f64, secs_f64_exec, trunc_exec, trunc_value,
};
use crate::error::AppError;
use crate::ffmpeg::Platform;
use crate::paths::{join_path, join_path_exec};
use crate::text::{dec, dec_padded, millis_short, push_arg, push_dec, push_dec_padded, push_millis_short, push_owned, str_eq, views};
use crate::types::{Clip, Project, RawAsset};
use vstd::arithmetic::power2::{lemma2_to64, lemma2_to64_rest, lemma_pow2_strictly_increases};
use vstd::prelude::*;

verus! {

/// One piece to cut: segment `segment` of raw asset `asset`.
#[derive(Debug, Clone, Copy, PartialEq, Eq)]
pub struct CutTask {
    pub asset: usize,
    pub segment: usize,
}

/// Number of whole pieces of `clip_ms` in an asset of `duration_ms`:
/// `(duration / clip).floor() as usize` on the two lengths as `f64`
/// seconds, so the `f64` quotient decides (none when either length is not
/// positive).
pub open spec fn segment_count(duration_ms: int, clip_ms: int) -> int {
    if duration_ms <= 0 || clip_ms <= 0 {
        0
    } else {
        let t = trunc_value(div_f64(secs_f64(duration_ms as nat), secs_f64(clip_ms as nat)));
        if t > usize::MAX {
            usize::MAX as int
        } else {
            t as int
        }
    }
}

/// `segment_count(duration_ms, clip_ms)` for a positive clip length.
pub fn segment_count_exec(duration_ms: i32, clip_ms: i32) -> (n: usize)
    requires
        clip_ms > 0,
    ensures
        n as int == segment_count(duration_ms as int, clip_ms as int),
{
    if duration_ms <= 0 {
        return 0;
    }
    let (md, xd) = secs_f64_exec(duration_ms);
    let (mc, xc) = secs_f64_exec(clip_ms);
    proof {
        lemma2_to64();
        lemma2_to64_rest();
        lemma_pow2_strictly_increases(53, 54);
        lemma_log2_bounds(md as nat, mc as nat, 52, 54, 52, 54);
    }
    let (mq, xq) = nearest_f64_exec(md, mc, xd - xc);
    let t = trunc_exec(mq, xq);
    if t > usize::MAX as u128 {
        usize::MAX
    } else {
        t as usize
    }
}

/// The pieces of assets `0..n`, asset by asset, segment by segment.
pub open spec fn tasks_upto(assets: Seq<RawAsset>, clip_ms: int, n: int) -> Seq<(int, int)>
    decreases n,
{
    if n <= 0 {
        seq![]
    } else {
        tasks_upto(assets, clip_ms, n - 1) + Seq::new(
            segment_count(assets[n - 1].duration_ms as int, clip_ms) as nat,
            |si: int| (n - 1, si),
        )
    }
}

/// All pieces to cut for a project.
pub open spec fn cut_tasks_spec(project: Project) -> Seq<(int, int)> {
    tasks_upto(project.raw_assets@, project.clip_duration_ms as int, project.raw_assets@.len() as int)
}

/// The task list as pairs.
pub open spec fn task_views(ts: Seq<CutTask>) -> Seq<(int, int)> {
    ts.map_values(|t: CutTask| (t.asset as int, t.segment as int))
}

/// Refuses a project without raw assets or with a clip length that is not
/// positive.
pub fn check_preprocess_inputs(project: &Project) -> (r: Result<(), AppError>)
    ensures
        project.raw_assets@.len() == 0 ==> (r matches Err(AppError::InvalidArgument(m)) && m@
            == "没有任何原始素材"@),
        project.raw_assets@.len() > 0 && project.clip_duration_ms <= 0 ==> (r matches Err(
            AppError::InvalidArgument(m),
        ) && m@ == "片段长度必须 > 0"@),
        project.raw_assets@.len() > 0 && project.clip_duration_ms > 0 ==> r is Ok,
{
    if project.raw_assets.len() == 0 {
        return Err(AppError::InvalidArgument("没有任何原始素材".to_owned()));
    }
    if project.clip_duration_ms <= 0 {
        return Err(AppError::InvalidArgument("片段长度必须 > 0".to_owned()));
    }
    Ok(())
}

/// The pieces to cut, in asset order: each asset gives as many pieces as
/// its length holds whole clip lengths. Refused as `check_preprocess_inputs`
/// refuses, and when no asset is long enough for one piece.
pub fn cut_tasks(project: &Project) -> (r: Result<Vec<CutTask>, AppError>)
    ensures
        project.raw_assets@.len() == 0 ==> (r matches Err(AppError::InvalidArgument(m)) && m@
            == "没有任何原始素材"@),
        project.raw_assets@.len() > 0 && project.clip_duration_ms <= 0 ==> (r matches Err(
            AppError::InvalidArgument(m),
        ) && m@ == "片段长度必须 > 0"@),
        project.raw_assets@.len() > 0 && project.clip_duration_ms > 0 ==> {
            if cut_tasks_spec(*project).len() == 0 {
                r matches Err(AppError::InvalidArgument(m)) && m@ == "素材时长不足以切出任何片段"@
            } else {
                r matches Ok(ts) && task_views(ts@) == cut_tasks_spec(*project)
            }
        },
{
    check_preprocess_inputs(project)?;
    let clip = project.clip_duration_ms;
    let mut tasks: Vec<CutTask> = Vec::new();
    let mut ai: usize = 0;
    while ai < project.raw_assets.len()
        invariant
            ai <= project.raw_assets@.len(),
            clip == project.clip_duration_ms > 0,
            task_views(tasks@) == tasks_upto(project.raw_assets@, clip as int, ai as int),
        decreases project.raw_assets.len() - ai,
    {
        let d = project.raw_assets[ai].duration_ms;
        let n: usize = segment_count_exec(d, clip);
        let ghost before = task_views(tasks@);
        let mut si: usize = 0;
        while si < n
            invariant
                si <= n,
                n as int == segment_count(d as int, clip as int),
                task_views(tasks@) == before + Seq::new(si as nat, |k: int| (ai as int, k)),
            decreases n - si,
        {
            let ghost tv = task_views(tasks@);
            tasks.push(CutTask { asset: ai, segment: si });
            assert(task_views(tasks@) =~= tv.push((ai as int, si as int)));
            si = si + 1;
            assert(task_views(tasks@) =~= before + Seq::new(si as nat, |k: int| (ai as int, k)));
        }
        assert(project.raw_assets@[ai as int].duration_ms == d);
        ai = ai + 1;
    }
    if tasks.len() == 0 {
        return Err(AppError::InvalidArgument("素材时长不足以切出任何片段".to_owned()));
    }
    Ok(tasks)
}

/// The file name of a piece: `aAAA_sSSS.mp4`.
pub fn cut_file_name(asset: usize, segment: usize) -> (name: String)
    ensures
        name@ == "a"@ + dec_padded(asset as nat, 3) + "_s"@ + dec_padded(segment as nat, 3) + ".mp4"@,
{
    let mut s = String::new();
    s.append("a");
    push_dec_padded(&mut s, asset as u128, 3);
    s.append("_s");
    push_dec_padded(&mut s, segment as u128, 3);
    s.append(".mp4");
    s
}

/// The directory of the pieces: `clips` under the working directory.
pub fn clips_dir(work: &str, platform: Platform) -> (d: String)
    ensures
        d@ == join_path(work@, "clips"@, platform),
{
    join_path_exec(work, "clips", platform)
}

/// The file of each piece, in task order: `aAAA_sSSS.mp4` in `clips` under
/// the working directory.
pub fn clip_paths(work: &str, tasks: &Vec<CutTask>, platform: Platform) -> (v: Vec<String>)
    ensures
        v@.len() == tasks@.len(),
        forall|k: int|
            0 <= k < tasks@.len() ==> (#[trigger] v@[k])@ == join_path(
                join_path(work@, "clips"@, platform),
                "a"@ + dec_padded(tasks@[k].asset as nat, 3) + "_s"@ + dec_padded(
                    tasks@[k].segment as nat,
                    3,
                ) + ".mp4"@,
                platform,
            ),
{
    let dir = clips_dir(work, platform);
    let mut v: Vec<String> = Vec::new();
    let mut k: usize = 0;
    while k < tasks.len()
        invariant
            k <= tasks@.len(),
            dir@ == join_path(work@, "clips"@, platform),
            v@.len() == k,
            forall|j: int|
                0 <= j < k ==> (#[trigger] v@[j])@ == join_path(
                    dir@,
                    "a"@ + dec_padded(tasks@[j].asset as nat, 3) + "_s"@ + dec_padded(
                        tasks@[j].segment as nat,
                        3,
                    ) + ".mp4"@,
                    platform,
                ),
        decreases tasks.len() - k,
    {
        let t = tasks[k];
        let name = cut_file_name(t.asset, t.segment);
        v.push(join_path_exec(dir.as_str(), name.as_str(), platform));
        k = k + 1;
    }
    v
}

/// The video filter of a piece for an orientation.
pub open spec fn cut_filter(w: u32, h: u32, fps: u32, portrait: bool) -> Seq<char> {
    let ws = dec(w as nat);
    let hs = dec(h as nat);
    if portrait {
        "scale="@ + ws + ":-2,crop="@ + ws + ":"@ + hs + ":(iw-"@ + ws + ")/2:(ih-"@ + hs
            + ")/2,fps="@ + dec(fps as nat)
            + ",eq=contrast=1.1:saturation=1.15:brightness=0.02,format=yuv420p"@
    } else {
        "scale="@ + ws + ":"@ + hs + ":force_original_aspect_ratio=decrease,pad="@ + ws + ":"@
            + hs + ":(ow-iw)/2:(oh-ih)/2:black,fps="@ + dec(fps as nat)
            + ",eq=contrast=1.1:saturation=1.15:brightness=0.02,format=yuv420p"@
    }
}

/// The ffmpeg arguments that cut `duration_ms` out of `input` from the
/// position written as `start` (seconds).
pub open spec fn cut_args_spec(
    input: Seq<char>,
    start: Seq<char>,
    duration_ms: int,
    w: u32,
    h: u32,
    fps: u32,
    orientation: Seq<char>,
    output: Seq<char>,
) -> Seq<Seq<char>> {
    seq![
        "-hide_banner"@,
        "-loglevel"@,
        "error"@,
        "-y"@,
        "-ss"@,
        start,
        "-i"@,
        input,
        "-t"@,
        millis_short(duration_ms),
        "-vf"@,
        cut_filter(w, h, fps, orientation == "portrait"@),
        "-r"@,
        dec(fps as nat),
        "-c:v"@,
        "libx264"@,
        "-preset"@,
        "veryfast"@,
        "-crf"@,
        "23"@,
        "-pix_fmt"@,
        "yuv420p"@,
        "-af"@,
        "loudnorm=I=-16:TP=-1.5:LRA=11,aresample=48000"@,
        "-c:a"@,
        "aac"@,
        "-ar"@,
        "48000"@,
        "-ac"@,
        "2"@,
        "-b:a"@,
        "128k"@,
        "-shortest"@,
        output,
    ]
}

fn cut_filter_exec(w: u32, h: u32, fps: u32, portrait: bool) -> (s: String)
    ensures
        s@ == cut_filter(w, h, fps, portrait),
{
    let mut s = String::new();
    if portrait {
        s.append("scale=");
        push_dec(&mut s, w as u128);
        s.append(":-2,crop=");
        push_dec(&mut s, w as u128);
        s.append(":");
        push_dec(&mut s, h as u128);
        s.append(":(iw-");
        push_dec(&mut s, w as u128);
        s.append(")/2:(ih-");
        push_dec(&mut s, h as u128);
        s.append(")/2,fps=");
        push_dec(&mut s, fps as u128);
        s.append(",eq=contrast=1.1:saturation=1.15:brightness=0.02,format=yuv420p");
    } else {
        s.append("scale=");
        push_dec(&mut s, w as u128);
        s.append(":");
        push_dec(&mut s, h as u128);
        s.append(":force_original_aspect_ratio=decrease,pad=");
        push_dec(&mut s, w as u128);
        s.append(":");
        push_dec(&mut s, h as u128);
        s.append(":(ow-iw)/2:(oh-ih)/2:black,fps=");
        push_dec(&mut s, fps as u128);
        s.append(",eq=contrast=1.1:saturation=1.15:brightness=0.02,format=yuv420p");
    }
    s
}

/// Plans cutting one piece of `duration_ms` out of `input` from `start`
/// (the position in seconds, as ffmpeg reads it), re-encoded to `w`x`h` at
/// `fps`.
pub fn cut_and_normalize_args(
    input: &str,
    start: &str,
    duration_ms: i32,
    w: u32,
    h: u32,
    fps: u32,
    orientation: &str,
    output: &str,
) -> (args: Vec<String>)
    ensures
        views(args@) == cut_args_spec(input@, start@, duration_ms as int, w, h, fps, orientation@, output@),
{
    let mut t = String::new();
    push_millis_short(&mut t, duration_ms as i128);
    let vf = cut_filter_exec(w, h, fps, str_eq(orientation, "portrait"));
    let mut r = String::new();
    push_dec(&mut r, fps as u128);
    let mut args: Vec<String> = Vec::new();
    push_arg(&mut args, "-hide_banner");
    push_arg(&mut args, "-loglevel");
    push_arg(&mut args, "error");
    push_arg(&mut args, "-y");
    push_arg(&mut args, "-ss");
    push_arg(&mut args, start);
    push_arg(&mut args, "-i");
    push_arg(&mut args, input);
    push_arg(&mut args, "-t");
    push_owned(&mut args, t);
    push_arg(&mut args, "-vf");
    push_owned(&mut args, vf);
    push_arg(&mut args, "-r");
    push_owned(&mut args, r);
    push_arg(&mut args, "-c:v");
    push_arg(&mut args, "libx264");
    push_arg(&mut args, "-preset");
    push_arg(&mut args, "veryfast");
    push_arg(&mut args, "-crf");
    push_arg(&mut args, "23");
    push_arg(&mut args, "-pix_fmt");
    push_arg(&mut args, "yuv420p");
    push_arg(&mut args, "-af");
    push_arg(&mut args, "loudnorm=I=-16:TP=-1.5:LRA=11,aresample=48000");
    push_arg(&mut args, "-c:a");
    push_arg(&mut args, "aac");
    push_arg(&mut args, "-ar");
    push_arg(&mut args, "48000");
    push_arg(&mut args, "-ac");
    push_arg(&mut args, "2");
    push_arg(&mut args, "-b:a");
    push_arg(&mut args, "128k");
    push_arg(&mut args, "-shortest");
    push_arg(&mut args, output);
    assert(views(args@) =~= cut_args_spec(input@, start@, duration_ms as int, w, h, fps, orientation@, output@));
    args
}

/// The clip record of each piece cut to `paths[k]`, in task order: the
/// clip length, the asset's scene, unused.
pub fn clips_from_cuts(
    assets: &Vec<RawAsset>,
    tasks: &Vec<CutTask>,
    paths: &Vec<String>,
    clip_ms: i32,
) -> (clips: Vec<Clip>)
    requires
        paths@.len() == tasks@.len(),
        forall|k: int| 0 <= k < tasks@.len() ==> (#[trigger] tasks@[k]).asset < assets@.len(),
    ensures
        clips@.len() == tasks@.len(),
        forall|k: int|
            0 <= k < tasks@.len() ==> #[trigger] clips@[k] == (Clip {
                path: paths@[k],
                duration_ms: clip_ms,
                scene_id: assets@[tasks@[k].asset as int].scene_id,
                used: false,
            }),
{
    let mut clips: Vec<Clip> = Vec::new();
    let mut k: usize = 0;
    while k < tasks.len()
        invariant
            k <= tasks@.len() == paths@.len(),
            forall|j: int| 0 <= j < tasks@.len() ==> (#[trigger] tasks@[j]).asset < assets@.len(),
            clips@.len() == k,
            forall|j: int|
                0 <= j < k ==> #[trigger] clips@[j] == (Clip {
                    path: paths@[j],
                    duration_ms: clip_ms,
                    scene_id: assets@[tasks@[j].asset as int].scene_id,
                    used: false,
                }),
        decreases tasks.len() - k,
    {
        let t = tasks[k];
        let c = Clip {
            path: paths[k].clone(),
            duration_ms: clip_ms,
            scene_id: assets[t.asset].scene_id.clone(),
            used: false,
        };
        clips.push(c);
        k = k + 1;
    }
    clips
}

} // verus!
