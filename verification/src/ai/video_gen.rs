//! Turning one still image into a moving video clip with ffmpeg.
//! Effects: "zoom-in" | "ken-burns" | "pan-left" | "pan-right".
use crate::binary64::{frames_at_30, frames_at_30_exec, push_secs_fixed2, secs_fixed2};
use crate::text::{dec, millis_short, push_arg, push_dec, push_millis_short, push_owned, str_eq, views};
use vstd::prelude::*;

verus! {

/// The zoompan part shared by "zoom-in" and unknown effects.
pub open spec fn zoom_filter(frames: int, w: u32, h: u32, duration_ms: int) -> Seq<char> {
    "zoompan=z='min(zoom+0.0015,1.5)':d="@ + dec(frames as nat) + ":s="@ + dec(w as nat) + "x"@
        + dec(h as nat) + ":fps=30,trim=duration="@ + millis_short(duration_ms)
        + ",setpts=PTS-STARTPTS,format=yuv420p"@
}

/// The video filter of an effect.
pub open spec fn motion_filter(effect: Seq<char>, duration_ms: int, w: u32, h: u32) -> Seq<char> {
    let frames = frames_at_30(duration_ms);
    if effect == "ken-burns"@ {
        "zoompan=z='min(zoom+0.0012,1.4)':x='iw/2-(iw/zoom/2)':y='ih/2-(ih/zoom/2)':d="@ + dec(
            frames as nat,
        ) + ":s="@ + dec(w as nat) + "x"@ + dec(h as nat) + ":fps=30,trim=duration="@
            + millis_short(duration_ms) + ",setpts=PTS-STARTPTS,format=yuv420p"@
    } else if effect == "pan-left"@ {
        "crop=iw*0.8:ih:(iw-iw*0.8)*min(t/"@ + millis_short(duration_ms) + ",1):0,scale="@ + dec(
            w as nat,
        ) + ":"@ + dec(h as nat) + ",fps=30,format=yuv420p"@
    } else if effect == "pan-right"@ {
        "crop=iw*0.8:ih:(iw-iw*0.8)*(1-min(t/"@ + millis_short(duration_ms) + ",1)):0,scale="@
            + dec(w as nat) + ":"@ + dec(h as nat) + ",fps=30,format=yuv420p"@
    } else {
        zoom_filter(frames as int, w, h, duration_ms)
    }
}

/// The ffmpeg arguments that turn `image` into a `duration_ms` clip.
pub open spec fn motion_args_spec(
    image: Seq<char>,
    duration_ms: int,
    effect: Seq<char>,
    w: u32,
    h: u32,
    output: Seq<char>,
) -> Seq<Seq<char>> {
    seq![
        "-hide_banner"@,
        "-loglevel"@,
        "error"@,
        "-y"@,
        "-loop"@,
        "1"@,
        "-i"@,
        image,
        "-vf"@,
        motion_filter(effect, duration_ms, w, h),
        "-t"@,
        secs_fixed2(duration_ms),
        "-c:v"@,
        "libx264"@,
        "-preset"@,
        "veryfast"@,
        "-crf"@,
        "23"@,
        "-pix_fmt"@,
        "yuv420p"@,
        "-an"@,
        output,
    ]
}

fn push_size(s: &mut String, w: u32, h: u32, sep: &str)
    ensures
        final(s)@ == old(s)@ + dec(w as nat) + sep@ + dec(h as nat),
{
    push_dec(s, w as u128);
    s.append(sep);
    push_dec(s, h as u128);
}

fn motion_filter_exec(effect: &str, duration_ms: i32, w: u32, h: u32) -> (s: String)
    ensures
        s@ == motion_filter(effect@, duration_ms as int, w, h),
{
    let frames: u128 = frames_at_30_exec(duration_ms);
    let mut s = String::new();
    if str_eq(effect, "ken-burns") {
        s.append("zoompan=z='min(zoom+0.0012,1.4)':x='iw/2-(iw/zoom/2)':y='ih/2-(ih/zoom/2)':d=");
        push_dec(&mut s, frames);
        s.append(":s=");
        push_size(&mut s, w, h, "x");
        s.append(":fps=30,trim=duration=");
        push_millis_short(&mut s, duration_ms as i128);
        s.append(",setpts=PTS-STARTPTS,format=yuv420p");
    } else if str_eq(effect, "pan-left") {
        s.append("crop=iw*0.8:ih:(iw-iw*0.8)*min(t/");
        push_millis_short(&mut s, duration_ms as i128);
        s.append(",1):0,scale=");
        push_size(&mut s, w, h, ":");
        s.append(",fps=30,format=yuv420p");
    } else if str_eq(effect, "pan-right") {
        s.append("crop=iw*0.8:ih:(iw-iw*0.8)*(1-min(t/");
        push_millis_short(&mut s, duration_ms as i128);
        s.append(",1)):0,scale=");
        push_size(&mut s, w, h, ":");
        s.append(",fps=30,format=yuv420p");
    } else {
        // "zoom-in" and unknown effects: slow zoom from 1.0 towards 1.5
        s.append("zoompan=z='min(zoom+0.0015,1.5)':d=");
        push_dec(&mut s, frames);
        s.append(":s=");
        push_size(&mut s, w, h, "x");
        s.append(":fps=30,trim=duration=");
        push_millis_short(&mut s, duration_ms as i128);
        s.append(",setpts=PTS-STARTPTS,format=yuv420p");
    }
    s
}

/// Plans turning one image into a video clip of `duration_ms` with a motion
/// effect, `w`x`h` at 30 fps, without sound.
pub fn image_to_motion_video_args(
    image_path: &str,
    duration_ms: i32,
    effect: &str,
    w: u32,
    h: u32,
    output: &str,
) -> (args: Vec<String>)
    ensures
        views(args@) == motion_args_spec(image_path@, duration_ms as int, effect@, w, h, output@),
{
    let filter = motion_filter_exec(effect, duration_ms, w, h);
    let mut t = String::new();
    push_secs_fixed2(&mut t, duration_ms);
    let mut args: Vec<String> = Vec::new();
    push_arg(&mut args, "-hide_banner");
    push_arg(&mut args, "-loglevel");
    push_arg(&mut args, "error");
    push_arg(&mut args, "-y");
    push_arg(&mut args, "-loop");
    push_arg(&mut args, "1");
    push_arg(&mut args, "-i");
    push_arg(&mut args, image_path);
    push_arg(&mut args, "-vf");
    push_owned(&mut args, filter);
    push_arg(&mut args, "-t");
    push_owned(&mut args, t);
    push_arg(&mut args, "-c:v");
    push_arg(&mut args, "libx264");
    push_arg(&mut args, "-preset");
    push_arg(&mut args, "veryfast");
    push_arg(&mut args, "-crf");
    push_arg(&mut args, "23");
    push_arg(&mut args, "-pix_fmt");
    push_arg(&mut args, "yuv420p");
    push_arg(&mut args, "-an");
    push_arg(&mut args, output);
    assert(views(args@) =~= motion_args_spec(image_path@, duration_ms as int, effect@, w, h, output@));
    args
}

} // verus!
