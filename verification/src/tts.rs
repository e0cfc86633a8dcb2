//! Offline narration with espeak-ng.
//!
//! Voices differ by pitch (`-p`, 0..99) and speed (`-s`, words per minute),
//! because espeak-ng's `+f`/`+m` variants barely change Mandarin (`cmn`).
use crate::error::AppError;
use crate::text::{dec, is_blank, is_blank_str, push_arg, push_dec, push_owned, str_eq, views};
use vstd::prelude::*;

verus! {

/// The espeak-ng settings of a voice style.
struct VoiceCfg {
    suffix: &'static str,
    pitch: u8,
    speed: u16,
}

/// The `(variant suffix, pitch, speed)` of a voice style; unknown styles
/// (such as `"auto"`) use the plain voice at pitch 50, speed 175.
pub open spec fn voice_spec(style: Seq<char>) -> (Seq<char>, u8, u16) {
    if style == "female"@ {
        ("+f3"@, 65, 170)
    } else if style == "male"@ {
        ("+m3"@, 35, 150)
    } else if style == "news_female"@ {
        ("+f2"@, 55, 160)
    } else if style == "loli"@ {
        ("+f5"@, 88, 230)
    } else if style == "uncle"@ {
        ("+m1"@, 22, 125)
    } else if style == "youth_male"@ {
        ("+m4"@, 48, 185)
    } else if style == "sweet_female"@ {
        ("+f4"@, 78, 200)
    } else if style == "deep_male"@ {
        ("+m2"@, 28, 135)
    } else {
        (""@, 50, 175)
    }
}

fn voice_cfg(style: &str) -> (c: VoiceCfg)
    ensures
        (c.suffix@, c.pitch, c.speed) == voice_spec(style@),
{
    if str_eq(style, "female") {
        VoiceCfg { suffix: "+f3", pitch: 65, speed: 170 }
    } else if str_eq(style, "male") {
        VoiceCfg { suffix: "+m3", pitch: 35, speed: 150 }
    } else if str_eq(style, "news_female") {
        VoiceCfg { suffix: "+f2", pitch: 55, speed: 160 }
    } else if str_eq(style, "loli") {
        VoiceCfg { suffix: "+f5", pitch: 88, speed: 230 }
    } else if str_eq(style, "uncle") {
        VoiceCfg { suffix: "+m1", pitch: 22, speed: 125 }
    } else if str_eq(style, "youth_male") {
        VoiceCfg { suffix: "+m4", pitch: 48, speed: 185 }
    } else if str_eq(style, "sweet_female") {
        VoiceCfg { suffix: "+f4", pitch: 78, speed: 200 }
    } else if str_eq(style, "deep_male") {
        VoiceCfg { suffix: "+m2", pitch: 28, speed: 135 }
    } else {
        VoiceCfg { suffix: "", pitch: 50, speed: 175 }
    }
}

/// The espeak-ng voice name for a language and a voice style.
pub fn resolve_voice(lang_prefix: &str, style: &str) -> (v: String)
    ensures
        v@ == lang_prefix@ + voice_spec(style@).0,
{
    let cfg = voice_cfg(style);
    let mut v = String::new();
    v.append(lang_prefix);
    v.append(cfg.suffix);
    v
}

/// The espeak-ng arguments that speak `text` into `output_wav`.
pub open spec fn speech_args_spec(text: Seq<char>, output_wav: Seq<char>, lang: Seq<char>, voice: Seq<char>) -> Seq<Seq<char>> {
    let (suffix, pitch, speed) = voice_spec(voice);
    seq![
        "-v"@,
        lang + suffix,
        "-p"@,
        dec(pitch as nat),
        "-s"@,
        dec(speed as nat),
        "-w"@,
        output_wav,
        text,
    ]
}

/// Plans speaking `text` with espeak-ng: refused when the text is blank.
pub fn speech_args(text: &str, output_wav: &str, lang: &str, voice: &str) -> (r: Result<Vec<String>, AppError>)
    ensures
        is_blank(text@) <==> r is Err,
        r matches Err(e) ==> e matches AppError::InvalidArgument(m) && m@ == "配音文案为空"@,
        r matches Ok(args) ==> views(args@) == speech_args_spec(text@, output_wav@, lang@, voice@),
{
    if is_blank_str(text) {
        return Err(AppError::InvalidArgument("配音文案为空".to_owned()));
    }
    let cfg = voice_cfg(voice);
    let mut args: Vec<String> = Vec::new();
    push_arg(&mut args, "-v");
    let mut v = String::new();
    v.append(lang);
    v.append(cfg.suffix);
    push_owned(&mut args, v);
    push_arg(&mut args, "-p");
    let mut p = String::new();
    push_dec(&mut p, cfg.pitch as u128);
    push_owned(&mut args, p);
    push_arg(&mut args, "-s");
    let mut sp = String::new();
    push_dec(&mut sp, cfg.speed as u128);
    push_owned(&mut args, sp);
    push_arg(&mut args, "-w");
    push_arg(&mut args, output_wav);
    push_arg(&mut args, text);
    assert(views(args@) =~= speech_args_spec(text@, output_wav@, lang@, voice@));
    Ok(args)
}

/// The voice-style table: each named style has its espeak-ng variant, pitch
/// and speed (`"male"` is `+m3`, low pitch 35, slower 150 wpm; `"female"`
/// is `+f3`, pitch 65, 170 wpm; ...), and any other style is the plain voice
/// at pitch 50, 175 wpm.
pub proof fn lemma_voice_table(style: Seq<char>)
    ensures
        style == "female"@ ==> voice_spec(style) == ("+f3"@, 65u8, 170u16),
        style == "male"@ ==> voice_spec(style) == ("+m3"@, 35u8, 150u16),
        style == "news_female"@ ==> voice_spec(style) == ("+f2"@, 55u8, 160u16),
        style == "loli"@ ==> voice_spec(style) == ("+f5"@, 88u8, 230u16),
        style == "uncle"@ ==> voice_spec(style) == ("+m1"@, 22u8, 125u16),
        style == "youth_male"@ ==> voice_spec(style) == ("+m4"@, 48u8, 185u16),
        style == "sweet_female"@ ==> voice_spec(style) == ("+f4"@, 78u8, 200u16),
        style == "deep_male"@ ==> voice_spec(style) == ("+m2"@, 28u8, 135u16),
        !is_named_voice(style) ==> voice_spec(style) == (""@, 50u8, 175u16),
{
    reveal_strlit("female");
    reveal_strlit("male");
    reveal_strlit("news_female");
    reveal_strlit("loli");
    reveal_strlit("uncle");
    reveal_strlit("youth_male");
    reveal_strlit("sweet_female");
    reveal_strlit("deep_male");
    assert("female"@.len() == 6);
    assert("male"@.len() == 4 && "male"@[0] == 'm');
    assert("news_female"@.len() == 11);
    assert("loli"@.len() == 4 && "loli"@[0] == 'l');
    assert("uncle"@.len() == 5);
    assert("youth_male"@.len() == 10);
    assert("sweet_female"@.len() == 12);
    assert("deep_male"@.len() == 9);
}

/// The eight named voice styles.
pub open spec fn is_named_voice(style: Seq<char>) -> bool {
    ||| style == "female"@
    ||| style == "male"@
    ||| style == "news_female"@
    ||| style == "loli"@
    ||| style == "uncle"@
    ||| style == "youth_male"@
    ||| style == "sweet_female"@
    ||| style == "deep_male"@
}

/// Distinct named styles sound different: their pitches differ, and so do
/// their variants, and none is the plain voice.
pub proof fn lemma_voice_styles_distinct(a: Seq<char>, b: Seq<char>)
    requires
        is_named_voice(a),
        is_named_voice(b),
        a != b,
    ensures
        voice_spec(a).1 != voice_spec(b).1,
        voice_spec(a).0 != voice_spec(b).0,
        voice_spec(a).0 != ""@,
{
    lemma_voice_table(a);
    lemma_voice_table(b);
    reveal_strlit("+f3");
    reveal_strlit("+m3");
    reveal_strlit("+f2");
    reveal_strlit("+f5");
    reveal_strlit("+m1");
    reveal_strlit("+m4");
    reveal_strlit("+f4");
    reveal_strlit("+m2");
    reveal_strlit("");
    assert(""@.len() == 0);
    assert("+f3"@.len() == 3 && "+f3"@[1] == 'f' && "+f3"@[2] == '3');
    assert("+m3"@.len() == 3 && "+m3"@[1] == 'm' && "+m3"@[2] == '3');
    assert("+f2"@.len() == 3 && "+f2"@[1] == 'f' && "+f2"@[2] == '2');
    assert("+f5"@.len() == 3 && "+f5"@[1] == 'f' && "+f5"@[2] == '5');
    assert("+m1"@.len() == 3 && "+m1"@[1] == 'm' && "+m1"@[2] == '1');
    assert("+m4"@.len() == 3 && "+m4"@[1] == 'm' && "+m4"@[2] == '4');
    assert("+f4"@.len() == 3 && "+f4"@[1] == 'f' && "+f4"@[2] == '4');
    assert("+m2"@.len() == 3 && "+m2"@[1] == 'm' && "+m2"@[2] == '2');
}

/// The male voice: `resolve_voice(lang, "male")` is `lang + "+m3"`, and its
/// espeak-ng arguments carry pitch 35 and speed 150.
pub proof fn lemma_male_voice_args(text: Seq<char>, output_wav: Seq<char>, lang: Seq<char>)
    ensures
        speech_args_spec(text, output_wav, lang, "male"@)[1] == lang + "+m3"@,
        speech_args_spec(text, output_wav, lang, "male"@)[3] == dec(35),
        speech_args_spec(text, output_wav, lang, "male"@)[5] == dec(150),
{
    lemma_voice_table("male"@);
}

} // verus!
