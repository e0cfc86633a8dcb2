//! Text on the video with ffmpeg's drawtext / subtitles filters:
//!  - up to three titles (drawtext)
//!  - a static subtitle, or automatic subtitles timed in an ASS file
//!
//! Texts reach ffmpeg through `textfile`, which avoids escaping CJK text,
//! quotes and colons.
//!
//! Positions are either one of the names top-left / top-center / top-right /
//! bottom-center, or `"x,y"` percentages such as `"50,50"` (the centre).
use crate::text::{
    chars_of, dec, dec_padded, is_blank, is_blank_str, is_ws, push_arg, push_dec,
    push_dec_padded, push_owned, push_str, replace_char, replace_char_str, str_eq,
    string_of_range, trim, trim_bounds, trim_str, views,
};
use crate::binary64::{
    count_f64, count_f64_exec, div_f64, lemma_log2_bounds, lemma_log2_count_bounds,
    lemma_log2_count_mono, lemma_nearest_below_half, lemma_pow2_1, log2_floor, millis_f64, mul_f64,
    nearest_f64, nearest_f64_exec, pow2_exec, round_even, round_even_exec, trunc_exec, trunc_value,
    value_den, value_num,
};
use vstd::arithmetic::power2::{
    lemma2_to64, lemma2_to64_rest, lemma_pow2_adds, lemma_pow2_pos, lemma_pow2_strictly_increases,
    lemma_pow2_unfold, pow2,
};
use vstd::prelude::*;

verus! {

// ---------------------------------------------------------------------------
// Positions
// ---------------------------------------------------------------------------

/// Number of occurrences of `c` in `s`.
pub open spec fn count_char(s: Seq<char>, c: char) -> nat
    decreases s.len(),
{
    if s.len() == 0 {
        0
    } else {
        count_char(s.drop_last(), c) + (if s.last() == c { 1nat } else { 0nat })
    }
}

/// Position of the first `c` in `s` (`s.len()` when there is none).
pub open spec fn index_of(s: Seq<char>, c: char) -> int
    decreases s.len(),
{
    if s.len() == 0 {
        0
    } else if s[0] == c {
        0
    } else {
        1 + index_of(s.drop_first(), c)
    }
}

/// `c` is an ASCII decimal digit.
pub open spec fn is_digit(c: char) -> bool {
    '0' <= c && c <= '9'
}

/// Value of a string of decimal digits.
pub open spec fn digits_value(s: Seq<char>) -> int
    decreases s.len(),
{
    if s.len() == 0 {
        0
    } else {
        digits_value(s.drop_last()) * 10 + (s.last() as int - '0' as int)
    }
}

/// `u32::from_str`: an optional `+`, then one or more ASCII digits whose
/// value fits an `u32`.
pub open spec fn parse_u32(s: Seq<char>) -> Option<u32> {
    if s.len() > 0 && s[0] == '+' {
        parse_digits_spec(s.drop_first())
    } else {
        parse_digits_spec(s)
    }
}

/// One or more ASCII digits whose value fits an `u32`.
pub open spec fn parse_digits_spec(body: Seq<char>) -> Option<u32> {
    if body.len() > 0 && (forall|i: int| 0 <= i < body.len() ==> is_digit(#[trigger] body[i]))
        && digits_value(body) <= u32::MAX {
        Some(digits_value(body) as u32)
    } else {
        None
    }
}

/// The percentage coordinates of an `"x,y"` position, when `pos` is one.
pub open spec fn percent_position(pos: Seq<char>) -> Option<(u32, u32)> {
    let k = index_of(pos, ',');
    let px = parse_u32(pos.take(k));
    let py = parse_u32(pos.skip(k + 1));
    if count_char(pos, ',') == 1 && px is Some && py is Some {
        Some((px->0, py->0))
    } else {
        None
    }
}

/// The drawtext `(x, y)` expressions for a position.
pub open spec fn position(pos: Seq<char>) -> (Seq<char>, Seq<char>) {
    match percent_position(pos) {
        Some((x, y)) => (
            "(w-text_w)*"@ + dec(x as nat) + "/100"@,
            "(h-text_h)*"@ + dec(y as nat) + "/100"@,
        ),
        None => if pos == "top-center"@ {
            ("(w-text_w)/2"@, "40"@)
        } else if pos == "top-right"@ {
            ("w-text_w-40"@, "40"@)
        } else if pos == "bottom-center"@ {
            ("(w-text_w)/2"@, "h-text_h-40"@)
        } else {
            ("40"@, "40"@)
        },
    }
}

proof fn lemma_index_count(s: Seq<char>, c: char)
    ensures
        0 <= index_of(s, c) <= s.len(),
        index_of(s, c) < s.len() ==> s[index_of(s, c)] == c,
        forall|i: int| 0 <= i < index_of(s, c) ==> s[i] != c,
    decreases s.len(),
{
    if s.len() > 0 && s[0] != c {
        lemma_index_count(s.drop_first(), c);
        assert forall|i: int| 0 <= i < index_of(s, c) implies s[i] != c by {
            if i > 0 {
                assert(s[i] == s.drop_first()[i - 1]);
            }
        }
    }
}

proof fn lemma_count_prefix(s: Seq<char>, c: char, n: int)
    requires
        0 <= n < s.len(),
    ensures
        count_char(s.take(n + 1), c) == count_char(s.take(n), c) + (if s[n] == c { 1nat } else { 0nat }),
{
    assert(s.take(n + 1).drop_last() =~= s.take(n));
}

/// Value of `s`'s digits, when they all are digits and fit an `u32`.
fn parse_digits(v: &Vec<char>, lo: usize, hi: usize) -> (r: Option<u32>)
    requires
        lo <= hi <= v@.len(),
    ensures
        r == parse_digits_spec(v@.subrange(lo as int, hi as int)),
{
    let ghost body = v@.subrange(lo as int, hi as int);
    if lo == hi {
        return None;
    }
    let mut acc: u64 = 0;
    let mut i = lo;
    while i < hi
        invariant
            lo <= i <= hi <= v@.len(),
            body == v@.subrange(lo as int, hi as int),
            forall|k: int| lo <= k < i ==> is_digit(#[trigger] v@[k]),
            acc == digits_value(v@.subrange(lo as int, i as int)),
            acc <= u32::MAX,
        decreases hi - i,
    {
        let c = v[i];
        if !('0' <= c && c <= '9') {
            assert(!is_digit(body[i - lo]));
            return None;
        }
        let d = (c as u32 - '0' as u32) as u64;
        assert(v@.subrange(lo as int, i + 1).drop_last() =~= v@.subrange(lo as int, i as int));
        acc = acc * 10 + d;
        if acc > 0xFFFF_FFFF {
            proof {
                assert(body.take((i + 1 - lo) as int) =~= v@.subrange(lo as int, i + 1));
                if forall|k: int| 0 <= k < body.len() ==> is_digit(#[trigger] body[k]) {
                    lemma_digits_value_grows(body, (i + 1 - lo) as int);
                }
            }
            return None;
        }
        i = i + 1;
    }
    assert(v@.subrange(lo as int, hi as int) =~= body);
    Some(acc as u32)
}

proof fn lemma_digits_value_grows(s: Seq<char>, n: int)
    requires
        0 <= n <= s.len(),
        forall|i: int| 0 <= i < s.len() ==> is_digit(#[trigger] s[i]),
    ensures
        digits_value(s) >= digits_value(s.take(n)),
    decreases s.len(),
{
    if n < s.len() {
        assert(s.drop_last().take(n) =~= s.take(n));
        assert forall|i: int| 0 <= i < s.drop_last().len() implies is_digit(#[trigger] s.drop_last()[i]) by {
            assert(s.drop_last()[i] == s[i]);
        }
        lemma_digits_value_grows(s.drop_last(), n);
        lemma_digits_value_nonneg(s.drop_last());
    } else {
        assert(s.take(n) =~= s);
    }
}

proof fn lemma_digits_value_nonneg(s: Seq<char>)
    requires
        forall|i: int| 0 <= i < s.len() ==> is_digit(#[trigger] s[i]),
    ensures
        digits_value(s) >= 0,
    decreases s.len(),
{
    if s.len() > 0 {
        assert forall|i: int| 0 <= i < s.drop_last().len() implies is_digit(#[trigger] s.drop_last()[i]) by {
            assert(s.drop_last()[i] == s[i]);
        }
        lemma_digits_value_nonneg(s.drop_last());
    }
}

/// `u32::from_str` on `v[lo..hi]`.
fn parse_u32_range(v: &Vec<char>, lo: usize, hi: usize) -> (r: Option<u32>)
    requires
        lo <= hi <= v@.len(),
    ensures
        r == parse_u32(v@.subrange(lo as int, hi as int)),
{
    let ghost s = v@.subrange(lo as int, hi as int);
    if lo < hi {
        assert(s[0] == v@[lo as int]);
    }
    if lo < hi && v[lo] == '+' {
        assert(s.drop_first() =~= v@.subrange(lo + 1, hi as int));
        parse_digits(v, lo + 1, hi)
    } else {
        parse_digits(v, lo, hi)
    }
}

/// Turns a position into the drawtext `(x, y)` expressions: `"x,y"`
/// percentages, or one of the named positions (top-left when unknown).
pub fn position_expr(pos: &str) -> (r: (String, String))
    ensures
        r.0@ == position(pos@).0,
        r.1@ == position(pos@).1,
{
    let v = chars_of(pos);
    let mut commas: usize = 0;
    let mut first: usize = v.len();
    let mut i: usize = 0;
    while i < v.len()
        invariant
            i <= v@.len(),
            v@ == pos@,
            commas == count_char(v@.take(i as int), ','),
            commas <= i,
            first == (if commas == 0 { v@.len() as int } else { index_of(v@, ',') }),
            commas == 0 ==> forall|k: int| 0 <= k < i ==> v@[k] != ',',
            commas > 0 ==> first < i,
        decreases v.len() - i,
    {
        proof {
            lemma_count_prefix(v@, ',', i as int);
            lemma_index_count(v@, ',');
        }
        if v[i] == ',' {
            if commas == 0 {
                first = i;
                proof {
                    if index_of(v@, ',') < i {
                        assert(v@[index_of(v@, ',')] == ',');
                    }
                    if index_of(v@, ',') > i {
                        assert(v@[i as int] != ',');
                    }
                }
            }
            commas = commas + 1;
        }
        i = i + 1;
    }
    assert(v@.take(v@.len() as int) =~= v@);
    if commas == 1 {
        proof {
            lemma_index_count(v@, ',');
            assert(v@.take(first as int) =~= v@.subrange(0, first as int));
            assert(v@.skip(first + 1) =~= v@.subrange(first + 1, v@.len() as int));
        }
        let px = parse_u32_range(&v, 0, first);
        let py = parse_u32_range(&v, first + 1, v.len());
        assert(px == parse_u32(pos@.take(index_of(pos@, ','))));
        assert(py == parse_u32(pos@.skip(index_of(pos@, ',') + 1)));
        match (px, py) {
            (Some(x), Some(y)) => {
                let mut xs = String::new();
                xs.append("(w-text_w)*");
                push_dec(&mut xs, x as u128);
                xs.append("/100");
                let mut ys = String::new();
                ys.append("(h-text_h)*");
                push_dec(&mut ys, y as u128);
                ys.append("/100");
                return (xs, ys);
            },
            _ => {},
        }
    }
    assert(percent_position(pos@) is None);
    // "top-left" and unknown names both give (40, 40)
    if str_eq(pos, "top-center") {
        ("(w-text_w)/2".to_owned(), "40".to_owned())
    } else if str_eq(pos, "top-right") {
        ("w-text_w-40".to_owned(), "40".to_owned())
    } else if str_eq(pos, "bottom-center") {
        ("(w-text_w)/2".to_owned(), "h-text_h-40".to_owned())
    } else {
        ("40".to_owned(), "40".to_owned())
    }
}

// ---------------------------------------------------------------------------
// Styles
// ---------------------------------------------------------------------------

/// The extra drawtext options of a title style (a box for `simple` and
/// unknown styles).
pub open spec fn style_params_spec(style: Seq<char>) -> Seq<char> {
    if style == "outline"@ {
        "borderw=3:bordercolor=black"@
    } else if style == "shadow"@ {
        "shadowcolor=black@0.6:shadowx=4:shadowy=4"@
    } else if style == "neon"@ {
        "borderw=4:bordercolor=red:shadowcolor=red@0.4:shadowx=2:shadowy=2"@
    } else if style == "gradient"@ {
        "borderw=3:bordercolor=#8B5CF6"@
    } else if style == "vintage"@ {
        "borderw=3:bordercolor=#8B4513"@
    } else if style == "tech"@ {
        "borderw=3:bordercolor=#00CED1"@
    } else if style == "comic"@ {
        "borderw=5:bordercolor=black"@
    } else if style == "golden"@ {
        "borderw=3:bordercolor=#B8860B"@
    } else if style == "clean"@ {
        ""@
    } else {
        "box=1:boxcolor=black@0.5:boxborderw=12"@
    }
}

/// The font colour of a title style.
pub open spec fn style_color_spec(style: Seq<char>) -> Seq<char> {
    if style == "neon"@ {
        "yellow"@
    } else if style == "vintage"@ {
        "#F5F5DC"@
    } else if style == "tech"@ {
        "#00FFFF"@
    } else if style == "golden"@ {
        "#FFD700"@
    } else {
        "white"@
    }
}

/// The title-style table: `"shadow"` draws a drop shadow (black at 60%,
/// offset 4,4, no border), `"gradient"` a 3-pixel blue-violet border
/// `#8B5CF6`, `"outline"` a black border, `"clean"` nothing extra, and a
/// style without a name of its own a half-transparent box.
pub proof fn lemma_title_style_table(style: Seq<char>)
    ensures
        style == "outline"@ ==> style_params_spec(style) == "borderw=3:bordercolor=black"@,
        style == "shadow"@ ==> style_params_spec(style) == "shadowcolor=black@0.6:shadowx=4:shadowy=4"@,
        style == "neon"@ ==> style_params_spec(style)
            == "borderw=4:bordercolor=red:shadowcolor=red@0.4:shadowx=2:shadowy=2"@,
        style == "gradient"@ ==> style_params_spec(style) == "borderw=3:bordercolor=#8B5CF6"@,
        style == "vintage"@ ==> style_params_spec(style) == "borderw=3:bordercolor=#8B4513"@,
        style == "tech"@ ==> style_params_spec(style) == "borderw=3:bordercolor=#00CED1"@,
        style == "comic"@ ==> style_params_spec(style) == "borderw=5:bordercolor=black"@,
        style == "golden"@ ==> style_params_spec(style) == "borderw=3:bordercolor=#B8860B"@,
        style == "clean"@ ==> style_params_spec(style) == ""@,
        !is_named_style(style) ==> style_params_spec(style) == "box=1:boxcolor=black@0.5:boxborderw=12"@,
        style == "neon"@ ==> style_color_spec(style) == "yellow"@,
        style == "vintage"@ ==> style_color_spec(style) == "#F5F5DC"@,
        style == "tech"@ ==> style_color_spec(style) == "#00FFFF"@,
        style == "golden"@ ==> style_color_spec(style) == "#FFD700"@,
        style == "shadow"@ || style == "gradient"@ || style == "outline"@ || style == "comic"@
            || style == "clean"@ || !is_named_style(style) ==> style_color_spec(style) == "white"@,
{
    reveal_strlit("outline");
    reveal_strlit("shadow");
    reveal_strlit("neon");
    reveal_strlit("gradient");
    reveal_strlit("vintage");
    reveal_strlit("tech");
    reveal_strlit("comic");
    reveal_strlit("golden");
    reveal_strlit("clean");
    assert("outline"@.len() == 7 && "outline"@[0] == 'o');
    assert("shadow"@.len() == 6 && "shadow"@[0] == 's');
    assert("neon"@.len() == 4 && "neon"@[0] == 'n');
    assert("gradient"@.len() == 8 && "gradient"@[0] == 'g');
    assert("vintage"@.len() == 7 && "vintage"@[0] == 'v');
    assert("tech"@.len() == 4 && "tech"@[0] == 't');
    assert("comic"@.len() == 5 && "comic"@[0] == 'c' && "comic"@[1] == 'o');
    assert("golden"@.len() == 6 && "golden"@[0] == 'g');
    assert("clean"@.len() == 5 && "clean"@[0] == 'c' && "clean"@[1] == 'l');
}

/// The nine title styles with options of their own.
pub open spec fn is_named_style(style: Seq<char>) -> bool {
    ||| style == "outline"@
    ||| style == "shadow"@
    ||| style == "neon"@
    ||| style == "gradient"@
    ||| style == "vintage"@
    ||| style == "tech"@
    ||| style == "comic"@
    ||| style == "golden"@
    ||| style == "clean"@
}

/// The shadow style draws a shadow and no border; the gradient style draws
/// a border and no shadow.
pub proof fn lemma_shadow_and_gradient_differ()
    ensures
        style_params_spec("shadow"@).take(12) == "shadowcolor="@,
        style_params_spec("gradient"@).take(8) == "borderw="@,
        style_params_spec("shadow"@) != style_params_spec("gradient"@),
{
    lemma_title_style_table("shadow"@);
    lemma_title_style_table("gradient"@);
    reveal_strlit("shadowcolor=black@0.6:shadowx=4:shadowy=4");
    reveal_strlit("borderw=3:bordercolor=#8B5CF6");
    reveal_strlit("shadowcolor=");
    reveal_strlit("borderw=");
    assert(style_params_spec("shadow"@).take(12) =~= "shadowcolor="@);
    assert(style_params_spec("gradient"@).take(8) =~= "borderw="@);
    assert(style_params_spec("shadow"@)[0] != style_params_spec("gradient"@)[0]);
}

/// Extra drawtext options of a title style.
pub fn style_params(style: &str) -> (s: String)
    ensures
        s@ == style_params_spec(style@),
{
    if str_eq(style, "outline") {
        "borderw=3:bordercolor=black".to_owned()
    } else if str_eq(style, "shadow") {
        "shadowcolor=black@0.6:shadowx=4:shadowy=4".to_owned()
    } else if str_eq(style, "neon") {
        "borderw=4:bordercolor=red:shadowcolor=red@0.4:shadowx=2:shadowy=2".to_owned()
    } else if str_eq(style, "gradient") {
        "borderw=3:bordercolor=#8B5CF6".to_owned()
    } else if str_eq(style, "vintage") {
        "borderw=3:bordercolor=#8B4513".to_owned()
    } else if str_eq(style, "tech") {
        "borderw=3:bordercolor=#00CED1".to_owned()
    } else if str_eq(style, "comic") {
        "borderw=5:bordercolor=black".to_owned()
    } else if str_eq(style, "golden") {
        "borderw=3:bordercolor=#B8860B".to_owned()
    } else if str_eq(style, "clean") {
        "".to_owned()
    } else {
        "box=1:boxcolor=black@0.5:boxborderw=12".to_owned()
    }
}

/// Font colour of a title style.
pub fn style_color(style: &str) -> (c: &'static str)
    ensures
        c@ == style_color_spec(style@),
{
    if str_eq(style, "neon") {
        "yellow"
    } else if str_eq(style, "vintage") {
        "#F5F5DC"
    } else if str_eq(style, "tech") {
        "#00FFFF"
    } else if str_eq(style, "golden") {
        "#FFD700"
    } else {
        "white"
    }
}

// ---------------------------------------------------------------------------
// drawtext
// ---------------------------------------------------------------------------

/// ffmpeg filter escaping: backslashes doubled, then quotes prefixed with a
/// backslash.
pub open spec fn ffescape_spec(s: Seq<char>) -> Seq<char> {
    replace_char(replace_char(s, '\\', "\\\\"@), '\'', "\\'"@)
}

/// Escapes text for use inside a quoted filter option.
pub fn ffescape(s: &str) -> (r: String)
    ensures
        r@ == ffescape_spec(s@),
{
    let a = replace_char_str(s, '\\', "\\\\");
    replace_char_str(a.as_str(), '\'', "\\'")
}

/// One drawtext filter.
pub open spec fn drawtext_spec(
    font: Seq<char>,
    textfile: Seq<char>,
    x: Seq<char>,
    y: Seq<char>,
    size: u32,
    color: Seq<char>,
    extra: Seq<char>,
) -> Seq<char> {
    let base = "drawtext=fontfile='"@ + ffescape_spec(font) + "':textfile='"@ + ffescape_spec(
        textfile,
    ) + "':x="@ + x + ":y="@ + y + ":fontsize="@ + dec(size as nat) + ":fontcolor="@ + color;
    if extra.len() == 0 {
        base
    } else {
        base + ":"@ + extra
    }
}

/// Builds one drawtext filter that draws the contents of `textfile`.
pub fn drawtext_filter(
    font: &str,
    textfile: &str,
    x: &str,
    y: &str,
    size: u32,
    color: &str,
    extra: &str,
) -> (s: String)
    ensures
        s@ == drawtext_spec(font@, textfile@, x@, y@, size, color@, extra@),
{
    let font_e = ffescape(font);
    let textfile_e = ffescape(textfile);
    let mut s = String::new();
    s.append("drawtext=fontfile='");
    s.append(font_e.as_str());
    s.append("':textfile='");
    s.append(textfile_e.as_str());
    s.append("':x=");
    s.append(x);
    s.append(":y=");
    s.append(y);
    s.append(":fontsize=");
    push_dec(&mut s, size as u128);
    s.append(":fontcolor=");
    s.append(color);
    if !extra.is_empty() {
        s.append(":");
        s.append(extra);
    }
    s
}


// ---------------------------------------------------------------------------
// Automatic subtitles (ASS)
// ---------------------------------------------------------------------------

/// The characters that end a sentence.
pub open spec fn is_sentence_end(c: char) -> bool {
    c == '。' || c == '！' || c == '？' || c == '.' || c == '!' || c == '?'
}

/// The pieces of `s` between sentence ends (`str::split`), empty ones
/// included.
pub open spec fn split_pieces(s: Seq<char>) -> Seq<Seq<char>>
    decreases s.len(),
{
    if s.len() == 0 {
        seq![seq![]]
    } else {
        let p = split_pieces(s.drop_last());
        if is_sentence_end(s.last()) {
            p.push(seq![])
        } else {
            p.update(p.len() - 1, p.last().push(s.last()))
        }
    }
}

/// The trimmed pieces that are not blank, in order.
pub open spec fn nonblank_trimmed(ps: Seq<Seq<char>>) -> Seq<Seq<char>>
    decreases ps.len(),
{
    if ps.len() == 0 {
        seq![]
    } else {
        nonblank_trimmed(ps.drop_last()) + (if trim(ps.last()).len() > 0 {
            seq![trim(ps.last())]
        } else {
            seq![]
        })
    }
}

/// The sentences of a narration: its trimmed, non-blank pieces between
/// sentence ends, or the whole text as one sentence when there are none.
pub open spec fn sentences(text: Seq<char>) -> Seq<Seq<char>> {
    let s = nonblank_trimmed(split_pieces(text));
    if s.len() == 0 {
        seq![text]
    } else {
        s
    }
}

/// Whole hours of a non-negative time of `n / d` seconds, as
/// `(s / 3600.0) as u32` gives them.
pub open spec fn clock_hours(n: nat, d: nat) -> nat {
    if n == 0 {
        0
    } else {
        let h = trunc_value(nearest_f64(n, 3600 * d, 0));
        if h > u32::MAX {
            u32::MAX as nat
        } else {
            h
        }
    }
}

/// Minutes past the hour of a non-negative time of `n / d` seconds, as
/// `((s % 3600.0) / 60.0) as u32` gives them.
pub open spec fn clock_minutes(n: nat, d: nat) -> nat {
    let r = n % (3600 * d);
    if r == 0 {
        0
    } else {
        trunc_value(nearest_f64(r, 60 * d, 0))
    }
}

/// The ASS time stamp `h:mm:ss.cc` of the `f64` time `f` seconds (`neg`
/// for a negative time, whose hours and minutes are 0 and whose seconds
/// carry the sign). Seconds are `s % 60.0` printed with two decimals.
pub open spec fn clock_text(neg: bool, f: (nat, int)) -> Seq<char> {
    let n = value_num(f);
    let d = value_den(f);
    let c = round_even((n % (60 * d)) * 100, d);
    if neg {
        "0:00:-"@ + dec(c / 100) + "."@ + dec_padded(c % 100, 2)
    } else {
        dec(clock_hours(n, d)) + ":"@ + dec_padded(clock_minutes(n, d), 2) + ":"@ + dec_padded(
            c / 100,
            2,
        ) + "."@ + dec_padded(c % 100, 2)
    }
}

/// The `f64` time (magnitude) at which slot `i` of `n` equal slots of `d`
/// milliseconds starts: `(d / n) * i` in `f64` arithmetic.
pub open spec fn ass_instant(d: int, n: int, i: int) -> (nat, int) {
    mul_f64(div_f64(millis_f64(d), count_f64(n as nat)), count_f64(i as nat))
}

/// The fixed header of the subtitle file.
pub open spec fn ass_header() -> Seq<char> {
    "[Script Info]\nTitle:AutoSubtitle\nScriptType:v4.00+\nCollisions:Normal\nPlayResX:1920\nPlayResY:1080\nTimer:100.0000\n\n"@
        + "[V4+ Styles]\nFormat: Name, Fontname, Fontsize, PrimaryColour, SecondaryColour, OutlineColour, BackColour, Bold, Italic, Underline, StrikeOut, ScaleX, ScaleY, Spacing, Angle, BorderStyle, Outline, Shadow, Alignment, MarginL, MarginR, MarginV, Encoding\n"@
        + "Style: Default,PingFang SC,48,&H00FFFFFF,&H000000FF,&H00000000,&H00000000,0,0,0,0,100,100,0,0,1,2,0,2,40,40,40,1\n\n"@
        + "[Events]\nFormat: Layer, Start, End, Style, Name, MarginL, MarginR, MarginV, Effect, Text\n"@
}

/// Dialogue line `i` of `n`, each taking an equal share of `d` milliseconds.
pub open spec fn dialogue(sentence: Seq<char>, i: int, n: int, d: int) -> Seq<char> {
    "Dialogue: 0,"@ + clock_text(d < 0, ass_instant(d, n, i)) + ","@ + clock_text(
        d < 0,
        ass_instant(d, n, i + 1),
    ) + ",Default,,0,0,0,,"@
        + replace_char(sentence, ',', "，"@) + "\n"@
}

/// Dialogue lines for sentences `0..m`.
pub open spec fn dialogues(sents: Seq<Seq<char>>, m: int, n: int, d: int) -> Seq<char>
    decreases m,
{
    if m <= 0 {
        seq![]
    } else {
        dialogues(sents, m - 1, n, d) + dialogue(sents[m - 1], m - 1, n, d)
    }
}

/// An ASS document showing the sentences one after the other, each for an
/// equal share of `d` milliseconds.
pub open spec fn ass_document(sents: Seq<Seq<char>>, d: int) -> Seq<char> {
    let n = if sents.len() > 1 { sents.len() as int } else { 1int };
    ass_header() + dialogues(sents, sents.len() as int, n, d)
}

/// The automatic subtitle file for a narration shown over `d` milliseconds.
pub open spec fn karaoke_ass_spec(text: Seq<char>, d: int) -> Seq<char> {
    ass_document(sentences(text), d)
}

proof fn lemma_split_nonempty(s: Seq<char>)
    ensures
        split_pieces(s).len() >= 1,
    decreases s.len(),
{
    if s.len() > 0 {
        lemma_split_nonempty(s.drop_last());
    }
}

/// The sentences of a narration text.
pub fn split_sentences(text: &str) -> (r: Vec<String>)
    ensures
        views(r@) == sentences(text@),
{
    let v = chars_of(text);
    let mut done: Vec<String> = Vec::new();
    let mut cur: Vec<char> = Vec::new();
    let mut i: usize = 0;
    while i < v.len()
        invariant
            i <= v@.len(),
            v@ == text@,
            split_pieces(v@.take(i as int)).len() >= 1,
            cur@ == split_pieces(v@.take(i as int)).last(),
            views(done@) == nonblank_trimmed(split_pieces(v@.take(i as int)).drop_last()),
        decreases v.len() - i,
    {
        let c = v[i];
        let ghost p = split_pieces(v@.take(i as int));
        assert(v@.take(i + 1).drop_last() =~= v@.take(i as int));
        if c == '。' || c == '！' || c == '？' || c == '.' || c == '!' || c == '?' {
            let (lo, hi) = trim_bounds(&cur);
            if lo < hi {
                let t = string_of_range(&cur, lo, hi);
                let ghost before = views(done@);
                done.push(t);
                assert(views(done@) =~= before.push(trim(cur@)));
            }
            assert(split_pieces(v@.take(i + 1)).drop_last() =~= p);
            assert(p =~= p.drop_last().push(p.last()));
            cur = Vec::new();
        } else {
            cur.push(c);
            assert(split_pieces(v@.take(i + 1)).drop_last() =~= p.drop_last());
        }
        i = i + 1;
    }
    assert(v@.take(v@.len() as int) =~= v@);
    let ghost p = split_pieces(v@);
    assert(p =~= p.drop_last().push(p.last()));
    let (lo, hi) = trim_bounds(&cur);
    if lo < hi {
        let t = string_of_range(&cur, lo, hi);
        let ghost before = views(done@);
        done.push(t);
        assert(views(done@) =~= before.push(trim(cur@)));
    }
    if done.len() == 0 {
        let mut whole: Vec<String> = Vec::new();
        push_arg(&mut whole, text);
        assert(views(whole@) =~= seq![text@]);
        whole
    } else {
        done
    }
}

/// Appends `clock_text(neg, (m, x))`.
fn push_clock(s: &mut String, neg: bool, m: u128, x: i32)
    requires
        m <= pow2(53),
        -127 <= x <= 5,
    ensures
        final(s)@ == old(s)@ + clock_text(neg, (m as nat, x as int)),
{
    proof {
        lemma_pow2_1();
        lemma2_to64();
        lemma2_to64_rest();
        lemma_pow2_pos(53);
    }
    let ghost f = (m as nat, x as int);
    let n: u128;
    let d: u128;
    if x >= 0 {
        let p = pow2_exec(x as u32);
        proof {
            lemma_pow2_adds(53, x as nat);
            if x < 5 {
                lemma_pow2_strictly_increases(x as nat, 5);
            }
            assert(m * p <= 0x400_0000_0000_0000) by (nonlinear_arith)
                requires
                    m <= 0x20_0000_0000_0000,
                    p <= 32,
            ;
        }
        n = m * p;
        d = 1;
    } else {
        n = m;
        d = pow2_exec((-x) as u32);
        proof {
            lemma_pow2_pos((-x) as nat);
        }
    }
    assert(n == value_num(f) && d == value_den(f));
    let c: u128;
    if x <= -54 {
        proof {
            lemma_pow2_strictly_increases(53, (-x) as nat);
            vstd::arithmetic::div_mod::lemma_small_mod(n as nat, (60 * d) as nat);
            lemma_pow2_unfold(128);
            if x > -127 {
                lemma_pow2_strictly_increases((-x) as nat, 127);
            }
            assert(m <= 0x20_0000_0000_0000);
        }
        c = round_even_exec(m * 100, d);
    } else {
        proof {
            if x < 0 {
                lemma_pow2_strictly_increases((-x) as nat, 54);
            }
            lemma_pow2_adds(53, 5);
        }
        c = round_even_exec((n % (60 * d)) * 100, d);
    }
    if neg {
        s.append("0:00:-");
        push_dec(s, c / 100);
        s.append(".");
        push_dec_padded(s, c % 100, 2);
    } else {
        let h: u128;
        let mins: u128;
        if x <= -54 {
            proof {
                if m > 0 {
                    lemma_pow2_strictly_increases(53, (-x) as nat);
                    lemma_nearest_below_half(n as nat, (3600 * d) as nat);
                    vstd::arithmetic::div_mod::lemma_small_mod(n as nat, (3600 * d) as nat);
                    lemma_nearest_below_half(n as nat, (60 * d) as nat);
                } else {
                    assert(0nat % ((3600 * d) as nat) == 0) by (nonlinear_arith)
                        requires
                            d > 0,
                    ;
                }
            }
            h = 0;
            mins = 0;
        } else {
            proof {
                if x < 0 {
                    lemma_pow2_strictly_increases((-x) as nat, 54);
                }
                lemma_pow2_adds(53, 5);
                lemma_pow2_adds(54, 12);
            }
            if n == 0 {
                h = 0;
            } else {
                proof {
                    lemma_log2_bounds(n as nat, (3600 * d) as nat, 0, 59, 0, 66);
                }
                let (hm, hx) = nearest_f64_exec(n, 3600 * d, 0);
                let t = trunc_exec(hm, hx);
                h = if t > 0xFFFF_FFFF { 0xFFFF_FFFF } else { t };
            }
            let r = n % (3600 * d);
            if r == 0 {
                mins = 0;
            } else {
                proof {
                    lemma_log2_bounds(r as nat, (60 * d) as nat, 0, 66, 0, 60);
                }
                let (mm, mx) = nearest_f64_exec(r, 60 * d, 0);
                mins = trunc_exec(mm, mx);
            }
        }
        push_dec(s, h);
        s.append(":");
        push_dec_padded(s, mins, 2);
        s.append(":");
        push_dec_padded(s, c / 100, 2);
        s.append(".");
        push_dec_padded(s, c % 100, 2);
    }
}

/// `ass_instant(d, n, i)` from the slot length `seg = d / n`.
fn ass_instant_exec(d: i64, n: usize, seg: (u128, i32), i: usize) -> (r: (u128, i32))
    requires
        1 <= n,
        i <= n,
        seg.0 == div_f64(millis_f64(d as int), count_f64(n as nat)).0,
        seg.1 == div_f64(millis_f64(d as int), count_f64(n as nat)).1,
        seg.0 == 0 || (pow2(52) <= seg.0 <= pow2(53) && -64 <= seg.1 + log2_floor(n as nat, 1)
            <= 3),
        log2_floor(n as nat, 1) < 64,
    ensures
        r.0 == ass_instant(d as int, n as int, i as int).0,
        r.1 == ass_instant(d as int, n as int, i as int).1,
        r.0 <= pow2(53),
        -127 <= r.1 <= 5,
{
    let fi = count_f64_exec(i);
    if seg.0 == 0 || i == 0 {
        proof {
            lemma_pow2_1();
        }
        (0, 0)
    } else {
        proof {
            lemma2_to64();
            lemma2_to64_rest();
            lemma_log2_count_mono(i as nat, n as nat);
            lemma_pow2_adds(52, 52);
            lemma_pow2_adds(53, 53);
            lemma_pow2_strictly_increases(106, 107);
            lemma_pow2_adds(106, 14);
            lemma_pow2_strictly_increases(107, 120);
            assert(pow2(52) * pow2(52) <= seg.0 * fi.0 <= pow2(53) * pow2(53)) by (nonlinear_arith)
                requires
                    pow2(52) <= seg.0 <= pow2(53),
                    pow2(52) <= fi.0 <= pow2(53),
            ;
            lemma_log2_count_bounds((seg.0 * fi.0) as nat, 104, 107);
        }
        nearest_f64_exec(seg.0 * fi.0, 1, seg.1 + fi.1)
    }
}

/// Appends the dialogue line of sentence `i` of `n` over `d` milliseconds,
/// given the slot length `seg = d / n`.
fn push_dialogue(body: &mut String, sentence: &str, i: usize, n: usize, d: i64, seg: (u128, i32))
    requires
        1 <= n,
        i < n,
        seg.0 == div_f64(millis_f64(d as int), count_f64(n as nat)).0,
        seg.1 == div_f64(millis_f64(d as int), count_f64(n as nat)).1,
        seg.0 == 0 || (pow2(52) <= seg.0 <= pow2(53) && -64 <= seg.1 + log2_floor(n as nat, 1)
            <= 3),
        log2_floor(n as nat, 1) < 64,
    ensures
        final(body)@ == old(body)@ + dialogue(sentence@, i as int, n as int, d as int),
{
    let ghost before = body@;
    let start = ass_instant_exec(d, n, seg, i);
    let end = ass_instant_exec(d, n, seg, i + 1);
    let ghost t0 = clock_text(d < 0, (start.0 as nat, start.1 as int));
    let ghost t1 = clock_text(d < 0, (end.0 as nat, end.1 as int));
    assert(t0 == clock_text(d < 0, ass_instant(d as int, n as int, i as int)));
    assert(t1 == clock_text(d < 0, ass_instant(d as int, n as int, i + 1)));
    body.append("Dialogue: 0,");
    push_clock(body, d < 0, start.0, start.1);
    body.append(",");
    push_clock(body, d < 0, end.0, end.1);
    body.append(",Default,,0,0,0,,");
    let line = replace_char_str(sentence, ',', "，");
    body.append(line.as_str());
    body.append("\n");
    assert(body@ =~= before + ("Dialogue: 0,"@ + t0 + ","@ + t1 + ",Default,,0,0,0,,"@
        + replace_char(sentence@, ',', "，"@) + "\n"@));
}

/// The slot length `d / n` of `n` equal slots of `d` milliseconds, with the
/// bounds on its parts.
fn slot_f64(d: i64, n: usize) -> (seg: (u128, i32))
    requires
        1 <= n,
    ensures
        seg.0 == div_f64(millis_f64(d as int), count_f64(n as nat)).0,
        seg.1 == div_f64(millis_f64(d as int), count_f64(n as nat)).1,
        seg.0 == 0 || (pow2(52) <= seg.0 <= pow2(53) && -64 <= seg.1 + log2_floor(n as nat, 1)
            <= 3),
        log2_floor(n as nat, 1) < 64,
{
    let nf = count_f64_exec(n);
    if d == 0 {
        (0, 0)
    } else {
        let a: u128 = if d < 0 { (-(d as i128)) as u128 } else { d as u128 };
        proof {
            lemma2_to64();
            lemma2_to64_rest();
            lemma_log2_bounds(a as nat, 1000, 0, 64, 9, 10);
        }
        let df = nearest_f64_exec(a, 1000, 0);
        proof {
            lemma_pow2_strictly_increases(53, 54);
            lemma_log2_bounds(df.0 as nat, nf.0 as nat, 52, 54, 52, 54);
        }
        nearest_f64_exec(df.0, nf.0, df.1 - nf.1)
    }
}

/// Builds the automatic subtitle file for `sentences` over `duration_ms`.
pub fn write_ass(sents: &Vec<String>, duration_ms: i64) -> (body: String)
    ensures
        body@ == ass_document(views(sents@), duration_ms as int),
{
    let n: usize = if sents.len() > 1 { sents.len() } else { 1 };
    let mut body = String::new();
    body.append("[Script Info]\nTitle:AutoSubtitle\nScriptType:v4.00+\nCollisions:Normal\nPlayResX:1920\nPlayResY:1080\nTimer:100.0000\n\n");
    body.append("[V4+ Styles]\nFormat: Name, Fontname, Fontsize, PrimaryColour, SecondaryColour, OutlineColour, BackColour, Bold, Italic, Underline, StrikeOut, ScaleX, ScaleY, Spacing, Angle, BorderStyle, Outline, Shadow, Alignment, MarginL, MarginR, MarginV, Encoding\n");
    body.append("Style: Default,PingFang SC,48,&H00FFFFFF,&H000000FF,&H00000000,&H00000000,0,0,0,0,100,100,0,0,1,2,0,2,40,40,40,1\n\n");
    body.append("[Events]\nFormat: Layer, Start, End, Style, Name, MarginL, MarginR, MarginV, Effect, Text\n");
    let ghost head = body@;
    let ghost sv = views(sents@);
    let seg = slot_f64(duration_ms, n);
    let mut i: usize = 0;
    while i < sents.len()
        invariant
            i <= sents@.len(),
            sv == views(sents@),
            n as int == (if sents@.len() > 1 { sents@.len() as int } else { 1int }),
            body@ == head + dialogues(sv, i as int, n as int, duration_ms as int),
            seg.0 == div_f64(millis_f64(duration_ms as int), count_f64(n as nat)).0,
            seg.1 == div_f64(millis_f64(duration_ms as int), count_f64(n as nat)).1,
            seg.0 == 0 || (pow2(52) <= seg.0 <= pow2(53) && -64 <= seg.1 + log2_floor(
                n as nat,
                1,
            ) <= 3),
            log2_floor(n as nat, 1) < 64,
        decreases sents.len() - i,
    {
        push_dialogue(&mut body, sents[i].as_str(), i, n, duration_ms, seg);
        assert(sv[i as int] == sents@[i as int]@);
        i = i + 1;
    }
    body
}

/// Builds the automatic (karaoke-style) subtitle file: the narration cut
/// into sentences, each shown for an equal share of `duration_ms`.
pub fn generate_karaoke_ass(text: &str, duration_ms: i64) -> (body: String)
    ensures
        body@ == karaoke_ass_spec(text@, duration_ms as int),
{
    let sents = split_sentences(text);
    write_ass(&sents, duration_ms)
}

// ---------------------------------------------------------------------------
// The overlay step
// ---------------------------------------------------------------------------

/// One title: its text, position, font size and style.
pub struct TitleCfg<'a> {
    pub text: &'a str,
    pub pos: &'a str,
    pub size: u32,
    pub style: &'a str,
}

/// A text file to write before running ffmpeg.
#[derive(Debug)]
pub struct TextFile {
    pub path: String,
    pub contents: String,
}

/// Where the overlay step keeps its text files: one path per title (in
/// title order), the static subtitle file and the automatic subtitle file.
pub struct OverlayFiles {
    pub title_files: Vec<String>,
    pub subtitle_file: String,
    pub ass_file: String,
}

/// What the overlay step does: create the text directory (or not), write
/// these files, then run ffmpeg with these arguments.
#[derive(Debug)]
pub struct OverlayPlan {
    pub make_text_dir: bool,
    pub files: Vec<TextFile>,
    pub args: Vec<String>,
}

/// A title as text: (text, position, font size, style).
pub type TitleView = (Seq<char>, Seq<char>, u32, Seq<char>);

/// The texts of a list of titles.
pub open spec fn title_views(titles: Seq<TitleCfg>) -> Seq<TitleView> {
    titles.map_values(|t: TitleCfg| (t.text@, t.pos@, t.size, t.style@))
}

/// Whether there is any text to draw: a title or the subtitle that is not
/// blank. (Automatic subtitles need a subtitle text too, so they add none.)
pub open spec fn has_text_spec(titles: Seq<TitleView>, subtitle: Seq<char>) -> bool {
    ||| exists|i: int| 0 <= i < titles.len() && !is_blank((#[trigger] titles[i]).0)
    ||| !is_blank(subtitle)
}

/// The drawtext filter of a title drawn from `file`.
pub open spec fn title_filter(t: TitleView, file: Seq<char>, font: Seq<char>) -> Seq<char> {
    drawtext_spec(
        font,
        file,
        position(t.1).0,
        position(t.1).1,
        t.2,
        style_color_spec(t.3),
        style_params_spec(t.3),
    )
}

/// The drawtext filters of the non-blank titles among `titles[0..n]`.
pub open spec fn title_filters(titles: Seq<TitleView>, files: Seq<Seq<char>>, font: Seq<char>, n: int) -> Seq<Seq<char>>
    decreases n,
{
    if n <= 0 {
        seq![]
    } else {
        title_filters(titles, files, font, n - 1) + (if is_blank(titles[n - 1].0) {
            seq![]
        } else {
            seq![title_filter(titles[n - 1], files[n - 1], font)]
        })
    }
}

/// The title files (path, trimmed text) of the non-blank titles among
/// `titles[0..n]`.
pub open spec fn title_files_spec(titles: Seq<TitleView>, files: Seq<Seq<char>>, n: int) -> Seq<(Seq<char>, Seq<char>)>
    decreases n,
{
    if n <= 0 {
        seq![]
    } else {
        title_files_spec(titles, files, n - 1) + (if is_blank(titles[n - 1].0) {
            seq![]
        } else {
            seq![(files[n - 1], trim(titles[n - 1].0))]
        })
    }
}

/// `parts` joined with `,`.
pub open spec fn join_commas(parts: Seq<Seq<char>>) -> Seq<char>
    decreases parts.len(),
{
    if parts.len() == 0 {
        seq![]
    } else if parts.len() == 1 {
        parts[0]
    } else {
        join_commas(parts.drop_last()) + ","@ + parts.last()
    }
}

/// ffmpeg arguments that re-encode `input` through the filter chain `vf`.
pub open spec fn encode_args(input: Seq<char>, vf: Seq<char>, output: Seq<char>) -> Seq<Seq<char>> {
    seq![
        "-hide_banner"@,
        "-loglevel"@,
        "error"@,
        "-y"@,
        "-i"@,
        input,
        "-vf"@,
        vf,
        "-c:v"@,
        "libx264"@,
        "-preset"@,
        "veryfast"@,
        "-crf"@,
        "23"@,
        "-pix_fmt"@,
        "yuv420p"@,
        "-c:a"@,
        "copy"@,
        output,
    ]
}

/// The texts of a list of text files.
pub open spec fn file_views(fs: Seq<TextFile>) -> Seq<(Seq<char>, Seq<char>)> {
    fs.map_values(|f: TextFile| (f.path@, f.contents@))
}

/// The static subtitle's drawtext filter.
pub open spec fn subtitle_filter(file: Seq<char>, pos: Seq<char>, font: Seq<char>) -> Seq<char> {
    drawtext_spec(
        font,
        file,
        position(pos).0,
        position(pos).1,
        32,
        "white"@,
        style_params_spec("simple"@),
    )
}

/// The overlay step as a plan, for every input.
pub open spec fn overlay_plan_spec(
    video_in: Seq<char>,
    titles: Seq<TitleView>,
    subtitle: Seq<char>,
    subtitle_pos: Seq<char>,
    title_files: Seq<Seq<char>>,
    subtitle_file: Seq<char>,
    ass_file: Seq<char>,
    output: Seq<char>,
    font: Seq<char>,
    auto_subtitle: bool,
    duration_ms: int,
    drawtext_available: bool,
) -> (bool, Seq<(Seq<char>, Seq<char>)>, Seq<Seq<char>>) {
    let n = titles.len() as int;
    let tf = title_filters(titles, title_files, font, n);
    let files = title_files_spec(titles, title_files, n);
    if !has_text_spec(titles, subtitle) || !drawtext_available {
        (false, seq![], crate::compose::copy_args(video_in, output))
    } else if auto_subtitle && !is_blank(subtitle) {
        let joined = join_commas(tf);
        let sub = "subtitles='"@ + ffescape_spec(ass_file) + "'"@;
        let vf = if joined.len() == 0 { sub } else { joined + ","@ + sub };
        (
            true,
            files.push((ass_file, karaoke_ass_spec(subtitle, duration_ms))),
            encode_args(video_in, vf, output),
        )
    } else if !is_blank(subtitle) {
        (
            true,
            files.push((subtitle_file, subtitle)),
            encode_args(
                video_in,
                join_commas(tf.push(subtitle_filter(subtitle_file, subtitle_pos, font))),
                output,
            ),
        )
    } else {
        (true, files, encode_args(video_in, join_commas(tf), output))
    }
}

/// The name of the text file of title `idx`.
pub fn title_file_name(idx: usize) -> (name: String)
    ensures
        name@ == "title"@ + dec(idx as nat) + ".txt"@,
{
    let mut s = String::new();
    s.append("title");
    push_dec(&mut s, idx as u128);
    s.append(".txt");
    s
}

/// Whether the overlay step has any text to draw.
pub fn overlay_has_text(titles: &[TitleCfg], subtitle_text: &str) -> (b: bool)
    ensures
        b == has_text_spec(title_views(titles@), subtitle_text@),
{
    let ghost tv = title_views(titles@);
    let mut i: usize = 0;
    while i < titles.len()
        invariant
            i <= titles@.len(),
            tv == title_views(titles@),
            forall|k: int| 0 <= k < i ==> is_blank((#[trigger] tv[k]).0),
        decreases titles.len() - i,
    {
        assert(tv[i as int].0 == titles@[i as int].text@);
        if !is_blank_str(titles[i].text) {
            return true;
        }
        i = i + 1;
    }
    !is_blank_str(subtitle_text)
}

/// `parts` joined with `,`.
fn join_commas_exec(parts: &Vec<String>) -> (s: String)
    ensures
        s@ == join_commas(views(parts@)),
{
    let mut s = String::new();
    let mut i: usize = 0;
    while i < parts.len()
        invariant
            i <= parts@.len(),
            s@ == join_commas(views(parts@).take(i as int)),
        decreases parts.len() - i,
    {
        assert(views(parts@).take(i + 1).drop_last() =~= views(parts@).take(i as int));
        if i > 0 {
            s.append(",");
        }
        s.append(parts[i].as_str());
        i = i + 1;
    }
    assert(views(parts@).take(parts@.len() as int) =~= views(parts@));
    s
}

/// ffmpeg arguments that re-encode `input` through `vf`.
fn encode_args_exec(input: &str, vf: &str, output: &str) -> (args: Vec<String>)
    ensures
        views(args@) == encode_args(input@, vf@, output@),
{
    let mut args: Vec<String> = Vec::new();
    push_arg(&mut args, "-hide_banner");
    push_arg(&mut args, "-loglevel");
    push_arg(&mut args, "error");
    push_arg(&mut args, "-y");
    push_arg(&mut args, "-i");
    push_arg(&mut args, input);
    push_arg(&mut args, "-vf");
    push_arg(&mut args, vf);
    push_arg(&mut args, "-c:v");
    push_arg(&mut args, "libx264");
    push_arg(&mut args, "-preset");
    push_arg(&mut args, "veryfast");
    push_arg(&mut args, "-crf");
    push_arg(&mut args, "23");
    push_arg(&mut args, "-pix_fmt");
    push_arg(&mut args, "yuv420p");
    push_arg(&mut args, "-c:a");
    push_arg(&mut args, "copy");
    push_arg(&mut args, output);
    assert(views(args@) =~= encode_args(input@, vf@, output@));
    args
}

/// Appends a text file to the list.
fn push_file(files: &mut Vec<TextFile>, path: &str, contents: String)
    ensures
        file_views(final(files)@) == file_views(old(files)@).push((path@, contents@)),
{
    let ghost c = contents@;
    let mut p = String::new();
    p.append(path);
    files.push(TextFile { path: p, contents });
    assert(file_views(files@) =~= file_views(old(files)@).push((path@, c)));
}

/// Plans the overlay step: up to three titles and an optional subtitle over
/// `video_in`, written to `output`. Without any text, or when ffmpeg lacks
/// the drawtext filter, the video is copied unchanged.
pub fn overlay_plan(
    video_in: &str,
    titles: &[TitleCfg],
    subtitle_text: &str,
    subtitle_pos: &str,
    files: &OverlayFiles,
    output: &str,
    font: &str,
    auto_subtitle: bool,
    video_duration_ms: i64,
    drawtext_available: bool,
) -> (plan: OverlayPlan)
    requires
        files.title_files@.len() >= titles@.len(),
    ensures
        ({
            let spec = overlay_plan_spec(
                video_in@,
                title_views(titles@),
                subtitle_text@,
                subtitle_pos@,
                views(files.title_files@),
                files.subtitle_file@,
                files.ass_file@,
                output@,
                font@,
                auto_subtitle,
                video_duration_ms as int,
                drawtext_available,
            );
            &&& plan.make_text_dir == spec.0
            &&& file_views(plan.files@) == spec.1
            &&& views(plan.args@) == spec.2
        }),
{
    if !overlay_has_text(titles, subtitle_text) || !drawtext_available {
        return OverlayPlan {
            make_text_dir: false,
            files: Vec::new(),
            args: crate::compose::copy_args_exec(video_in, output),
        };
    }
    let ghost tfs = views(files.title_files@);
    let ghost tv = title_views(titles@);
    let mut filters: Vec<String> = Vec::new();
    let mut out_files: Vec<TextFile> = Vec::new();
    let mut idx: usize = 0;
    while idx < titles.len()
        invariant
            idx <= titles@.len() <= files.title_files@.len(),
            tfs == views(files.title_files@),
            tv == title_views(titles@),
            views(filters@) == title_filters(tv, tfs, font@, idx as int),
            file_views(out_files@) == title_files_spec(tv, tfs, idx as int),
        decreases titles.len() - idx,
    {
        let t = &titles[idx];
        assert(tv[idx as int] == (t.text@, t.pos@, t.size, t.style@));
        if !is_blank_str(t.text) {
            let txt = trim_str(t.text);
            let path = files.title_files[idx].as_str();
            assert(tfs[idx as int] == path@);
            push_file(&mut out_files, path, txt);
            let (x, y) = position_expr(t.pos);
            let color = style_color(t.style);
            let extra = style_params(t.style);
            let f = drawtext_filter(font, path, x.as_str(), y.as_str(), t.size, color, extra.as_str());
            push_owned(&mut filters, f);
        }
        idx = idx + 1;
    }
    if auto_subtitle && !is_blank_str(subtitle_text) {
        let body = generate_karaoke_ass(subtitle_text, video_duration_ms);
        push_file(&mut out_files, files.ass_file.as_str(), body);
        let joined = join_commas_exec(&filters);
        let mut vf = String::new();
        if !joined.as_str().is_empty() {
            vf.append(joined.as_str());
            vf.append(",");
        }
        vf.append("subtitles='");
        let esc = ffescape(files.ass_file.as_str());
        vf.append(esc.as_str());
        vf.append("'");
        proof {
            let sub = "subtitles='"@ + ffescape_spec(files.ass_file@) + "'"@;
            if joined@.len() == 0 {
                assert(vf@ =~= sub);
            } else {
                assert(vf@ =~= joined@ + ","@ + sub);
            }
        }
        let args = encode_args_exec(video_in, vf.as_str(), output);
        return OverlayPlan { make_text_dir: true, files: out_files, args };
    }
    if !is_blank_str(subtitle_text) {
        let mut contents = String::new();
        contents.append(subtitle_text);
        push_file(&mut out_files, files.subtitle_file.as_str(), contents);
        let (x, y) = position_expr(subtitle_pos);
        let extra = style_params("simple");
        let f = drawtext_filter(
            font,
            files.subtitle_file.as_str(),
            x.as_str(),
            y.as_str(),
            32,
            "white",
            extra.as_str(),
        );
        push_owned(&mut filters, f);
    }
    let vf = join_commas_exec(&filters);
    let args = encode_args_exec(video_in, vf.as_str(), output);
    OverlayPlan { make_text_dir: true, files: out_files, args }
}

} // verus!
