//! Three-track audio mix: the clips' own sound, the narration and the
//! background music, each at its own volume. The music fades in and out.
use crate::compose::copy_args;
use crate::text::{dec, millis_short, push_arg, push_dec, push_millis_short, push_owned, views};
use vstd::prelude::*;

verus! {

/// Fallback volume of the narration, in thousandths.
pub const DEFAULT_NARRATION_VOLUME: i32 = 1000;

/// Fallback volume of the background music, in thousandths.
pub const DEFAULT_BGM_VOLUME: i32 = 300;

/// Fallback volume of the clips' own sound, in thousandths.
pub const DEFAULT_ORIGINAL_VOLUME: i32 = 80;

/// The narration input's part of the mix graph.
pub open spec fn narration_part(has_narration: bool, narration_volume: int) -> Seq<char> {
    if has_narration {
        "[1:a]aresample=48000,volume="@ + millis_short(narration_volume) + "[an];"@
    } else {
        seq![]
    }
}

/// The background music's part of the mix graph: input `idx`, faded in and
/// out over `fade` milliseconds.
pub open spec fn bgm_part(has_bgm: bool, idx: nat, fade: int, bgm_volume: int) -> Seq<char> {
    if has_bgm {
        "["@ + dec(idx) + ":a]aresample=48000,afade=t=in:st=0:d="@ + millis_short(fade)
            + ",afade=t=out:st=0:d="@ + millis_short(fade) + ":curve=tri,volume="@ + millis_short(
            bgm_volume,
        ) + "[ab];"@
    } else {
        seq![]
    }
}

/// The labels fed to amix.
pub open spec fn amix_labels(has_narration: bool, has_bgm: bool) -> Seq<char> {
    "[ao]"@ + (if has_narration { "[an]"@ } else { seq![] }) + (if has_bgm {
        "[ab]"@
    } else {
        seq![]
    })
}

/// The `-filter_complex` graph of the mix. Volumes are thousandths, the fade
/// is in milliseconds (at most two seconds are used).
pub open spec fn mix_filter(
    has_narration: bool,
    has_bgm: bool,
    original_volume: int,
    narration_volume: int,
    bgm_volume: int,
    bgm_fade_ms: int,
) -> Seq<char> {
    let fade = if bgm_fade_ms < 2000 { bgm_fade_ms } else { 2000 };
    let bgm_idx: nat = if has_narration { 2 } else { 1 };
    let n: nat = 1 + (if has_narration { 1nat } else { 0nat }) + (if has_bgm { 1nat } else { 0nat });
    "[0:a]aresample=48000,volume="@ + millis_short(original_volume) + "[ao];"@ + narration_part(
        has_narration,
        narration_volume,
    ) + bgm_part(has_bgm, bgm_idx, fade, bgm_volume) + amix_labels(has_narration, has_bgm)
        + "amix=inputs="@ + dec(n) + ":duration=longest:dropout_transition=0:normalize=0[aout]"@
}

/// The ffmpeg arguments of the mix.
pub open spec fn mix_args_spec(
    video_in: Seq<char>,
    narration: Option<Seq<char>>,
    bg_music: Option<Seq<char>>,
    output: Seq<char>,
    original_volume: int,
    narration_volume: int,
    bgm_volume: int,
    bgm_fade_ms: int,
) -> Seq<Seq<char>> {
    if narration is None && bg_music is None {
        copy_args(video_in, output)
    } else {
        seq!["-hide_banner"@, "-loglevel"@, "error"@, "-y"@, "-i"@, video_in] + (match narration {
            Some(p) => seq!["-i"@, p],
            None => seq![],
        }) + (match bg_music {
            Some(p) => seq!["-i"@, p],
            None => seq![],
        }) + seq![
            "-filter_complex"@,
            mix_filter(
                narration is Some,
                bg_music is Some,
                original_volume,
                narration_volume,
                bgm_volume,
                bgm_fade_ms,
            ),
        ] + mix_tail(output)
    }
}

/// The text of an optional string slice.
pub open spec fn opt_view(o: Option<&str>) -> Option<Seq<char>> {
    match o {
        Some(s) => Some(s@),
        None => None,
    }
}

fn narration_part_exec(s: &mut String, has_narration: bool, narration_volume: i32)
    ensures
        final(s)@ == old(s)@ + narration_part(has_narration, narration_volume as int),
{
    if has_narration {
        s.append("[1:a]aresample=48000,volume=");
        push_millis_short(s, narration_volume as i128);
        s.append("[an];");
    } else {
        assert(s@ =~= s@ + narration_part(has_narration, narration_volume as int));
    }
}

fn bgm_part_exec(s: &mut String, has_bgm: bool, idx: u128, fade: i32, bgm_volume: i32)
    ensures
        final(s)@ == old(s)@ + bgm_part(has_bgm, idx as nat, fade as int, bgm_volume as int),
{
    if has_bgm {
        s.append("[");
        push_dec(s, idx);
        s.append(":a]aresample=48000,afade=t=in:st=0:d=");
        push_millis_short(s, fade as i128);
        s.append(",afade=t=out:st=0:d=");
        push_millis_short(s, fade as i128);
        s.append(":curve=tri,volume=");
        push_millis_short(s, bgm_volume as i128);
        s.append("[ab];");
    } else {
        assert(s@ =~= s@ + bgm_part(has_bgm, idx as nat, fade as int, bgm_volume as int));
    }
}

fn amix_labels_exec(s: &mut String, has_narration: bool, has_bgm: bool)
    ensures
        final(s)@ == old(s)@ + amix_labels(has_narration, has_bgm),
{
    let ghost start = s@;
    s.append("[ao]");
    let ghost a = s@;
    if has_narration {
        s.append("[an]");
    }
    let ghost b = s@;
    if has_bgm {
        s.append("[ab]");
    }
    proof {
        let np = if has_narration { "[an]"@ } else { seq![] };
        let bp = if has_bgm { "[ab]"@ } else { seq![] };
        assert(b =~= a + np);
        assert(s@ =~= b + bp);
        assert(s@ =~= start + amix_labels(has_narration, has_bgm));
    }
}

fn mix_filter_exec(
    has_narration: bool,
    has_bgm: bool,
    original_volume: i32,
    narration_volume: i32,
    bgm_volume: i32,
    bgm_fade_ms: i32,
) -> (s: String)
    ensures
        s@ == mix_filter(
            has_narration,
            has_bgm,
            original_volume as int,
            narration_volume as int,
            bgm_volume as int,
            bgm_fade_ms as int,
        ),
{
    let fade: i32 = if bgm_fade_ms < 2000 { bgm_fade_ms } else { 2000 };
    let bgm_idx: u128 = if has_narration { 2 } else { 1 };
    let n: u128 = 1 + (if has_narration { 1u128 } else { 0 }) + (if has_bgm { 1u128 } else { 0 });
    let mut s = String::new();
    s.append("[0:a]aresample=48000,volume=");
    push_millis_short(&mut s, original_volume as i128);
    s.append("[ao];");
    narration_part_exec(&mut s, has_narration, narration_volume);
    bgm_part_exec(&mut s, has_bgm, bgm_idx, fade, bgm_volume);
    amix_labels_exec(&mut s, has_narration, has_bgm);
    s.append("amix=inputs=");
    push_dec(&mut s, n);
    s.append(":duration=longest:dropout_transition=0:normalize=0[aout]");
    s
}

/// The output options of the mix, after its filter graph.
pub open spec fn mix_tail(output: Seq<char>) -> Seq<Seq<char>> {
    seq![
        "-map"@,
        "0:v"@,
        "-map"@,
        "[aout]"@,
        "-c:v"@,
        "copy"@,
        "-c:a"@,
        "aac"@,
        "-ar"@,
        "48000"@,
        "-b:a"@,
        "160k"@,
        "-shortest"@,
        output,
    ]
}

fn push_mix_tail(args: &mut Vec<String>, output: &str)
    ensures
        views(final(args)@) == views(old(args)@) + mix_tail(output@),
{
    push_arg(args, "-map");
    push_arg(args, "0:v");
    push_arg(args, "-map");
    push_arg(args, "[aout]");
    push_arg(args, "-c:v");
    push_arg(args, "copy");
    push_arg(args, "-c:a");
    push_arg(args, "aac");
    push_arg(args, "-ar");
    push_arg(args, "48000");
    push_arg(args, "-b:a");
    push_arg(args, "160k");
    push_arg(args, "-shortest");
    push_arg(args, output);
    assert(views(args@) =~= views(old(args)@) + mix_tail(output@));
}

/// Plans the audio mix of `video_in` with an optional narration and optional
/// background music into `output`; with neither, the video is copied as is.
/// The output is as long as the video.
pub fn mix_audio_args(
    video_in: &str,
    narration: Option<&str>,
    bg_music: Option<&str>,
    output: &str,
    original_volume: i32,
    narration_volume: i32,
    bgm_volume: i32,
    bgm_fade_ms: i32,
) -> (args: Vec<String>)
    ensures
        views(args@) == mix_args_spec(
            video_in@,
            opt_view(narration),
            opt_view(bg_music),
            output@,
            original_volume as int,
            narration_volume as int,
            bgm_volume as int,
            bgm_fade_ms as int,
        ),
{
    if narration.is_none() && bg_music.is_none() {
        return crate::compose::copy_args_exec(video_in, output);
    }
    let mut args: Vec<String> = Vec::new();
    push_arg(&mut args, "-hide_banner");
    push_arg(&mut args, "-loglevel");
    push_arg(&mut args, "error");
    push_arg(&mut args, "-y");
    push_arg(&mut args, "-i");
    push_arg(&mut args, video_in);
    let ghost a1 = views(args@);
    match narration {
        Some(p) => {
            push_arg(&mut args, "-i");
            push_arg(&mut args, p);
        },
        None => {},
    }
    let ghost a2 = views(args@);
    match bg_music {
        Some(p) => {
            push_arg(&mut args, "-i");
            push_arg(&mut args, p);
        },
        None => {},
    }
    let ghost a3 = views(args@);
    push_arg(&mut args, "-filter_complex");
    let filter = mix_filter_exec(
        narration.is_some(),
        bg_music.is_some(),
        original_volume,
        narration_volume,
        bgm_volume,
        bgm_fade_ms,
    );
    push_owned(&mut args, filter);
    push_mix_tail(&mut args, output);
    proof {
        let np: Seq<Seq<char>> = match opt_view(narration) {
            Some(p) => seq!["-i"@, p],
            None => seq![],
        };
        let bp: Seq<Seq<char>> = match opt_view(bg_music) {
            Some(p) => seq!["-i"@, p],
            None => seq![],
        };
        assert(a2 =~= a1 + np);
        assert(a3 =~= a2 + bp);
    }
    assert(views(args@) =~= mix_args_spec(
        video_in@,
        opt_view(narration),
        opt_view(bg_music),
        output@,
        original_volume as int,
        narration_volume as int,
        bgm_volume as int,
        bgm_fade_ms as int,
    ));
    args
}

} // verus!
