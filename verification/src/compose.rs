//! Joining clips into one video with random xfade transitions.
//!
//! Five built-in transitions: fade / slideleft / slideright / wipeleft /
//! zoomin. Within a video no transition repeats while there are unused ones
//! left: each round of five transitions uses five different ones, and two
//! neighbouring transitions are never the same.
use crate::rng::choose_index;
use crate::selection::sum_ms;
use crate::text::{
    dec, millis_fixed3, millis_short, push_arg, push_dec, push_millis_fixed3, push_millis_short,
    push_owned, push_str, string_of_range, chars_of, views,
};
use crate::types::Clip;
use vstd::prelude::*;

verus! {

/// Number of built-in transitions.
pub const TRANSITION_COUNT: usize = 5;

/// The name of built-in transition `i`.
pub open spec fn transition_name(i: int) -> Seq<char> {
    if i == 0 {
        "fade"@
    } else if i == 1 {
        "slideleft"@
    } else if i == 2 {
        "slideright"@
    } else if i == 3 {
        "wipeleft"@
    } else {
        "zoomin"@
    }
}

/// `name` is one of the built-in transitions.
pub open spec fn is_transition(name: Seq<char>) -> bool {
    exists|i: int| 0 <= i < 5 && #[trigger] transition_name(i) == name
}

/// A valid transition list for `n` joins: `n` built-in names; within each
/// round of five (positions `0..5`, `5..10`, ...) no name repeats, and no
/// two neighbours are equal.
#[verifier::opaque]
pub open spec fn valid_transitions(t: Seq<Seq<char>>, n: int) -> bool {
    &&& t.len() == n
    &&& forall|i: int| 0 <= i < t.len() ==> is_transition(#[trigger] t[i])
    &&& forall|i: int, j: int|
        #![trigger t[i], t[j]]
        0 <= i < j < t.len() && i / 5 == j / 5 ==> t[i] != t[j]
    &&& forall|i: int| 0 < i < t.len() ==> #[trigger] t[i] != t[i - 1]
}

/// A video of at most six clips (five joins) never repeats a transition.
pub proof fn lemma_short_video_transitions_distinct(t: Seq<Seq<char>>, n: int)
    requires
        valid_transitions(t, n),
        n <= 5,
    ensures
        t.no_duplicates(),
{
    reveal(valid_transitions);
    assert forall|i: int, j: int| 0 <= i < t.len() && 0 <= j < t.len() && i != j implies t[i] != t[j] by {
        if i < j {
            assert(i / 5 == 0 && j / 5 == 0);
        } else {
            assert(i / 5 == 0 && j / 5 == 0);
        }
    }
}

/// The texts of a list of string slices.
pub open spec fn str_views(v: Seq<&str>) -> Seq<Seq<char>> {
    v.map_values(|s: &str| s@)
}

/// Built-in transition `i`.
pub fn transition(i: usize) -> (name: &'static str)
    requires
        i < TRANSITION_COUNT,
    ensures
        name@ == transition_name(i as int),
{
    if i == 0 {
        "fade"
    } else if i == 1 {
        "slideleft"
    } else if i == 2 {
        "slideright"
    } else if i == 3 {
        "wipeleft"
    } else {
        "zoomin"
    }
}

proof fn lemma_transition_names_distinct(i: int, j: int)
    requires
        0 <= i < 5,
        0 <= j < 5,
        i != j,
    ensures
        transition_name(i) != transition_name(j),
{
    reveal_strlit("fade");
    reveal_strlit("slideleft");
    reveal_strlit("slideright");
    reveal_strlit("wipeleft");
    reveal_strlit("zoomin");
    assert(transition_name(i).len() != transition_name(j).len());
}

/// Whether `t` is among `idx[from..]`.
fn in_round(idx: &Vec<usize>, from: usize, t: usize) -> (b: bool)
    requires
        from <= idx@.len(),
    ensures
        b == (exists|m: int| from <= m < idx@.len() && idx@[m] == t),
{
    let mut m = from;
    while m < idx.len()
        invariant
            from <= m <= idx@.len(),
            forall|q: int| from <= q < m ==> idx@[q] != t,
        decreases idx.len() - m,
    {
        if idx[m] == t {
            return true;
        }
        m = m + 1;
    }
    false
}

/// Transition `u` is unused in `idx[from..]` and differs from the last one.
spec fn fresh_transition(idx: Seq<usize>, from: int, u: usize) -> bool {
    &&& u < 5
    &&& forall|m: int| from <= m < idx.len() ==> #[trigger] idx[m] != u
    &&& idx.len() > 0 ==> idx[idx.len() - 1] != u
}

/// Fewer than five distinct transitions used so far in a round leave one
/// unused, also different from the last one picked.
proof fn lemma_free_transition(idx: Seq<usize>, from: int)
    requires
        0 <= from <= idx.len(),
        idx.len() - from < 5,
        forall|m: int| from <= m < idx.len() ==> #[trigger] idx[m] < 5,
        forall|i: int, j: int| from <= i < j < idx.len() ==> #[trigger] idx[i] != #[trigger] idx[j],
    ensures
        exists|u: usize| #[trigger] fresh_transition(idx, from, u),
{
    let k = idx.len() as int;
    if k == from {
        let u: usize = if k > 0 && idx[k - 1] == 0 { 1 } else { 0 };
        assert(fresh_transition(idx, from, u));
    } else {
        let p = |u: usize| exists|m: int| from <= m < k && #[trigger] idx[m] == u;
        if p(0) && p(1) && p(2) && p(3) && p(4) {
            let p0 = choose|m: int| from <= m < k && idx[m] == 0usize;
            let p1 = choose|m: int| from <= m < k && idx[m] == 1usize;
            let p2 = choose|m: int| from <= m < k && idx[m] == 2usize;
            let p3 = choose|m: int| from <= m < k && idx[m] == 3usize;
            let p4 = choose|m: int| from <= m < k && idx[m] == 4usize;
            assert(idx[p0] == 0usize && idx[p1] == 1usize && idx[p2] == 2usize && idx[p3] == 3usize
                && idx[p4] == 4usize);
            assert(false);
        }
        let u: usize = if !p(0) { 0 } else if !p(1) { 1 } else if !p(2) { 2 } else if !p(3) { 3 } else { 4 };
        assert(!p(u));
        assert(idx[k - 1] != u);
        assert(fresh_transition(idx, from, u));
    }
}

/// Picks `n` transitions at random. Each round of five uses five different
/// transitions, and a new round does not begin with the transition that
/// ended the previous one.
pub fn pick_transitions(n: usize) -> (picked: Vec<&'static str>)
    ensures
        picked@.len() == n,
        valid_transitions(str_views(picked@), n as int),
{
    reveal(valid_transitions);
    let mut result: Vec<&'static str> = Vec::new();
    let mut idx: Vec<usize> = Vec::new();
    let mut k: usize = 0;
    while k < n
        invariant
            k <= n,
            result@.len() == k,
            idx@.len() == k,
            forall|m: int|
                0 <= m < k ==> #[trigger] idx@[m] < 5 && result@[m]@ == transition_name(idx@[m] as int),
            forall|i: int, j: int|
                0 <= i < j < k && i / 5 == j / 5 ==> #[trigger] idx@[i] != #[trigger] idx@[j],
            forall|i: int| 0 < i < k ==> #[trigger] idx@[i] != idx@[i - 1],
        decreases n - k,
    {
        let from = k - k % 5;
        let mut pool: Vec<usize> = Vec::new();
        let mut t: usize = 0;
        while t < TRANSITION_COUNT
            invariant
                t <= 5,
                from == k - k % 5,
                idx@.len() == k,
                forall|i: int| 0 <= i < pool@.len() ==> fresh_transition(idx@, from as int, #[trigger] pool@[i]),
                forall|u: usize| u < t && #[trigger] fresh_transition(idx@, from as int, u) ==> pool@.contains(u),
            decreases 5 - t,
        {
            let fresh = !in_round(&idx, from, t) && (k == 0 || idx[k - 1] != t);
            let ghost before = pool@;
            if fresh {
                pool.push(t);
                assert(pool@[pool@.len() - 1] == t);
                assert forall|u: usize| before.contains(u) implies pool@.contains(u) by {
                    let w = choose|w: int| 0 <= w < before.len() && before[w] == u;
                    assert(pool@[w] == u);
                }
            }
            assert(fresh == fresh_transition(idx@, from as int, t));
            t = t + 1;
        }
        proof {
            assert forall|i: int, j: int| from <= i < j < k implies #[trigger] idx@[i] != #[trigger] idx@[j] by {
                assert(i / 5 == j / 5);
            }
            lemma_free_transition(idx@, from as int);
            let u = choose|u: usize| #[trigger] fresh_transition(idx@, from as int, u);
            assert(pool@.contains(u));
        }
        let choice = match choose_index(&pool) {
            Some(x) => x,
            None => 0,
        };
        assert(pool@.contains(choice));
        let name = transition(choice);
        let ghost before = idx@;
        result.push(name);
        idx.push(choice);
        proof {
            assert forall|i: int, j: int|
                0 <= i < j < k + 1 && i / 5 == j / 5 implies #[trigger] idx@[i] != #[trigger] idx@[j] by {
                if j == k {
                    assert(from <= i);
                    assert(idx@[i] == before[i]);
                }
            }
        }
        k = k + 1;
    }
    proof {
        reveal(valid_transitions);
        let v = str_views(result@);
        assert forall|i: int| 0 <= i < v.len() implies is_transition(#[trigger] v[i]) by {
            assert(transition_name(idx@[i] as int) == v[i]);
        }
        assert forall|i: int, j: int| 0 <= i < j < v.len() && i / 5 == j / 5 implies v[i] != v[j] by {
            lemma_transition_names_distinct(idx@[i] as int, idx@[j] as int);
        }
        assert forall|i: int| 0 < i < v.len() implies #[trigger] v[i] != v[i - 1] by {
            lemma_transition_names_distinct(idx@[i] as int, idx@[i - 1] as int);
        }
    }
    result
}

// ---------------------------------------------------------------------------
// The filter graph
// ---------------------------------------------------------------------------

/// Preparation of video input `i`.
pub open spec fn video_input(i: nat) -> Seq<char> {
    "["@ + dec(i) + ":v]format=yuv420p,setpts=PTS-STARTPTS[v"@ + dec(i) + "_in];"@
}

/// Preparation of audio input `i`.
pub open spec fn audio_input(i: nat) -> Seq<char> {
    "["@ + dec(i) + ":a]aresample=48000,asetpts=PTS-STARTPTS[a"@ + dec(i) + "_in];"@
}

/// The video inputs `0..n`.
pub open spec fn video_inputs(n: nat) -> Seq<char>
    decreases n,
{
    if n == 0 {
        seq![]
    } else {
        video_inputs((n - 1) as nat) + video_input((n - 1) as nat)
    }
}

/// The audio inputs `0..n`.
pub open spec fn audio_inputs(n: nat) -> Seq<char>
    decreases n,
{
    if n == 0 {
        seq![]
    } else {
        audio_inputs((n - 1) as nat) + audio_input((n - 1) as nat)
    }
}

/// The label of the video stream that transition `i` starts from.
pub open spec fn prev_video(i: nat) -> Seq<char> {
    if i == 0 {
        "[v0_in]"@
    } else {
        "[v"@ + dec(i) + "]"@
    }
}

/// The label of the audio stream that cross-fade `i` starts from.
pub open spec fn prev_audio(i: nat) -> Seq<char> {
    if i == 0 {
        "[a0_in]"@
    } else {
        "[a"@ + dec(i) + "]"@
    }
}

/// Where transition `i` starts: the length of clips `0..=i`, less one
/// transition length per transition so far, never below zero.
pub open spec fn xfade_offset(clips: Seq<Clip>, i: nat, t: int) -> int {
    let off = sum_ms(clips.take(i + 1 as int)) - (i + 1) * t;
    if off > 0 { off } else { 0 }
}

/// Video transition `i` with transition name `tr`.
pub open spec fn xfade_step(clips: Seq<Clip>, tr: Seq<char>, i: nat, t: int) -> Seq<char> {
    prev_video(i) + "[v"@ + dec(i + 1) + "_in]xfade=transition="@ + tr + ":duration="@
        + millis_short(t) + ":offset="@ + millis_fixed3(xfade_offset(clips, i, t)) + "[v"@
        + dec(i + 1) + "];"@
}

/// Video transitions `0..m`.
pub open spec fn xfade_steps(clips: Seq<Clip>, trs: Seq<Seq<char>>, m: nat, t: int) -> Seq<char>
    decreases m,
{
    if m == 0 {
        seq![]
    } else {
        xfade_steps(clips, trs, (m - 1) as nat, t) + xfade_step(
            clips,
            trs[m - 1],
            (m - 1) as nat,
            t,
        )
    }
}

/// Audio cross-fade `i`.
pub open spec fn acrossfade_step(i: nat, t: int) -> Seq<char> {
    prev_audio(i) + "[a"@ + dec(i + 1) + "_in]acrossfade=d="@ + millis_short(t) + "[a"@ + dec(
        i + 1,
    ) + "];"@
}

/// Audio cross-fades `0..m`.
pub open spec fn acrossfade_steps(m: nat, t: int) -> Seq<char>
    decreases m,
{
    if m == 0 {
        seq![]
    } else {
        acrossfade_steps((m - 1) as nat, t) + acrossfade_step((m - 1) as nat, t)
    }
}

/// The whole `-filter_complex` graph before its final `;` is dropped.
pub open spec fn xfade_graph(clips: Seq<Clip>, trs: Seq<Seq<char>>, t: int) -> Seq<char> {
    let n = clips.len();
    video_inputs(n) + audio_inputs(n) + xfade_steps(clips, trs, (n - 1) as nat, t)
        + acrossfade_steps((n - 1) as nat, t)
}

/// `s` without a trailing `;`.
pub open spec fn drop_semicolon(s: Seq<char>) -> Seq<char> {
    if s.len() > 0 && s.last() == ';' {
        s.drop_last()
    } else {
        s
    }
}

/// The xfade + acrossfade `-filter_complex` graph for `clips`, with
/// transition `i` named `trs[i]` and every transition `t` milliseconds long.
pub open spec fn xfade_filter(clips: Seq<Clip>, trs: Seq<Seq<char>>, t: int) -> Seq<char> {
    drop_semicolon(xfade_graph(clips, trs, t))
}

/// Appends video input `i` and audio-free text for it.
fn push_video_input(s: &mut String, i: usize)
    ensures
        final(s)@ == old(s)@ + video_input(i as nat),
{
    s.append("[");
    push_dec(s, i as u128);
    s.append(":v]format=yuv420p,setpts=PTS-STARTPTS[v");
    push_dec(s, i as u128);
    s.append("_in];");
}

/// Appends audio input `i`.
fn push_audio_input(s: &mut String, i: usize)
    ensures
        final(s)@ == old(s)@ + audio_input(i as nat),
{
    s.append("[");
    push_dec(s, i as u128);
    s.append(":a]aresample=48000,asetpts=PTS-STARTPTS[a");
    push_dec(s, i as u128);
    s.append("_in];");
}

/// Appends the label of the video stream that transition `i` starts from.
fn push_prev_video(s: &mut String, i: usize)
    ensures
        final(s)@ == old(s)@ + prev_video(i as nat),
{
    if i == 0 {
        s.append("[v0_in]");
    } else {
        s.append("[v");
        push_dec(s, i as u128);
        s.append("]");
    }
}

/// Appends video transition `i`, starting at `off` milliseconds.
#[verifier::spinoff_prover]
#[verifier::rlimit(30)]
fn push_xfade_step(s: &mut String, clips: Ghost<Seq<Clip>>, tr: &str, i: usize, t: i32, off: i128)
    requires
        i < usize::MAX,
        off == xfade_offset(clips@, i as nat, t as int),
    ensures
        final(s)@ == old(s)@ + xfade_step(clips@, tr@, i as nat, t as int),
{
    push_prev_video(s, i);
    s.append("[v");
    push_dec(s, (i + 1) as u128);
    s.append("_in]xfade=transition=");
    s.append(tr);
    s.append(":duration=");
    push_millis_short(s, t as i128);
    s.append(":offset=");
    push_millis_fixed3(s, off);
    s.append("[v");
    push_dec(s, (i + 1) as u128);
    s.append("];");
}

/// Appends audio cross-fade `i`.
fn push_acrossfade_step(s: &mut String, i: usize, t: i32)
    requires
        i < usize::MAX,
    ensures
        final(s)@ == old(s)@ + acrossfade_step(i as nat, t as int),
{
    if i == 0 {
        s.append("[a0_in]");
    } else {
        s.append("[a");
        push_dec(s, i as u128);
        s.append("]");
    }
    s.append("[a");
    push_dec(s, (i + 1) as u128);
    s.append("_in]acrossfade=d=");
    push_millis_short(s, t as i128);
    s.append("[a");
    push_dec(s, (i + 1) as u128);
    s.append("];");
}

/// Appends the video transitions for `clips`.
fn push_xfade_steps(s: &mut String, clips: &[Clip], transitions: &[&str], t: i32)
    requires
        clips@.len() >= 1,
        transitions@.len() >= clips@.len() - 1,
    ensures
        final(s)@ == old(s)@ + xfade_steps(
            clips@,
            str_views(transitions@),
            (clips@.len() - 1) as nat,
            t as int,
        ),
{
    let n = clips.len();
    let ghost trs = str_views(transitions@);
    let ghost start = s@;
    let mut acc: i128 = 0;
    let mut i: usize = 0;
    while i < n - 1
        invariant
            n == clips@.len() >= 1,
            transitions@.len() >= n - 1,
            trs == str_views(transitions@),
            i <= n - 1,
            acc == sum_ms(clips@.take(i as int)),
            -2147483648 * (i as int) <= acc <= 2147483647 * (i as int),
            s@ == start + xfade_steps(clips@, trs, i as nat, t as int),
        decreases n - 1 - i,
    {
        assert(clips@.take(i + 1).drop_last() =~= clips@.take(i as int));
        acc = acc + clips[i].duration_ms as i128;
        let k: i128 = i as i128 + 1;
        let tt: i128 = t as i128;
        assert(-0x1_0000_0000_0000_0000_0000_0000 <= k * tt <= 0x1_0000_0000_0000_0000_0000_0000)
            by (nonlinear_arith)
            requires
                1 <= k <= 0x1_0000_0000_0000_0000,
                -0x8000_0000 <= tt < 0x8000_0000,
        ;
        let off = acc - k * tt;
        let off = if off > 0 { off } else { 0 };
        assert(off == xfade_offset(clips@, i as nat, t as int));
        push_xfade_step(s, Ghost(clips@), transitions[i], i, t, off);
        proof {
            assert(trs[i as int] == transitions@[i as int]@);
        }
        assert(s@ == start + xfade_steps(clips@, trs, (i + 1) as nat, t as int));
        i = i + 1;
    }
}

/// Builds the `-filter_complex` graph that chains the clips with xfade
/// (video) and acrossfade (audio).
pub fn build_xfade_filter(clips: &[Clip], transitions: &[&str], t: i32) -> (s: String)
    requires
        clips@.len() >= 1,
        transitions@.len() >= clips@.len() - 1,
    ensures
        s@ == xfade_filter(clips@, str_views(transitions@), t as int),
{
    let n = clips.len();
    let mut s = String::new();
    let mut i: usize = 0;
    while i < n
        invariant
            i <= n == clips@.len(),
            s@ == video_inputs(i as nat),
        decreases n - i,
    {
        push_video_input(&mut s, i);
        i = i + 1;
    }
    let ghost part1 = s@;
    let mut i: usize = 0;
    while i < n
        invariant
            i <= n == clips@.len(),
            s@ == part1 + audio_inputs(i as nat),
        decreases n - i,
    {
        push_audio_input(&mut s, i);
        i = i + 1;
    }
    push_xfade_steps(&mut s, clips, transitions, t);
    let ghost part3 = s@;
    let mut i: usize = 0;
    while i < n - 1
        invariant
            n == clips@.len() >= 1,
            i <= n - 1,
            s@ == part3 + acrossfade_steps(i as nat, t as int),
        decreases n - 1 - i,
    {
        push_acrossfade_step(&mut s, i, t);
        i = i + 1;
    }
    assert(s@ =~= xfade_graph(clips@, str_views(transitions@), t as int));
    let v = chars_of(s.as_str());
    if v.len() > 0 && v[v.len() - 1] == ';' {
        string_of_range(&v, 0, v.len() - 1)
    } else {
        assert(v@.subrange(0, v@.len() as int) =~= v@);
        string_of_range(&v, 0, v.len())
    }
}

// ---------------------------------------------------------------------------
// The ffmpeg command line
// ---------------------------------------------------------------------------

/// `-i <path>` for each of the clips `0..n`.
pub open spec fn input_args(clips: Seq<Clip>, n: nat) -> Seq<Seq<char>>
    decreases n,
{
    if n == 0 {
        seq![]
    } else {
        input_args(clips, (n - 1) as nat) + seq!["-i"@, clips[n - 1].path@]
    }
}

/// Arguments that copy `input` to `output` unchanged.
pub open spec fn copy_args(input: Seq<char>, output: Seq<char>) -> Seq<Seq<char>> {
    seq![
        "-hide_banner"@,
        "-loglevel"@,
        "error"@,
        "-y"@,
        "-i"@,
        input,
        "-c"@,
        "copy"@,
        output,
    ]
}

/// The encoding options and the output of a joined video.
pub open spec fn concat_tail(output: Seq<char>) -> Seq<Seq<char>> {
    seq![
        "-c:v"@,
        "libx264"@,
        "-preset"@,
        "veryfast"@,
        "-crf"@,
        "23"@,
        "-pix_fmt"@,
        "yuv420p"@,
        "-c:a"@,
        "aac"@,
        "-ar"@,
        "48000"@,
        "-b:a"@,
        "128k"@,
        output,
    ]
}

/// ffmpeg arguments joining `clips` into `output` with the given transitions.
pub open spec fn concat_args_spec(clips: Seq<Clip>, output: Seq<char>, trs: Seq<Seq<char>>, t: int) -> Seq<Seq<char>> {
    if clips.len() == 1 {
        copy_args(clips[0].path@, output)
    } else {
        let last = (clips.len() - 1) as nat;
        seq!["-hide_banner"@, "-loglevel"@, "error"@, "-y"@] + input_args(clips, clips.len())
            + seq![
            "-filter_complex"@,
            xfade_filter(clips, trs, t),
            "-map"@,
            "[v"@ + dec(last) + "]"@,
            "-map"@,
            "[a"@ + dec(last) + "]"@,
        ] + concat_tail(output)
    }
}

/// Arguments that copy `input` to `output` unchanged (`-c copy`).
pub fn copy_args_exec(input: &str, output: &str) -> (args: Vec<String>)
    ensures
        views(args@) == copy_args(input@, output@),
{
    let mut args: Vec<String> = Vec::new();
    push_arg(&mut args, "-hide_banner");
    push_arg(&mut args, "-loglevel");
    push_arg(&mut args, "error");
    push_arg(&mut args, "-y");
    push_arg(&mut args, "-i");
    push_arg(&mut args, input);
    push_arg(&mut args, "-c");
    push_arg(&mut args, "copy");
    push_arg(&mut args, output);
    assert(views(args@) =~= copy_args(input@, output@));
    args
}

/// The label text `<prefix><n>]`.
fn label(prefix: &str, n: usize) -> (s: String)
    ensures
        s@ == prefix@ + dec(n as nat) + "]"@,
{
    let mut s = String::new();
    s.append(prefix);
    push_dec(&mut s, n as u128);
    s.append("]");
    s
}

fn push_concat_tail(args: &mut Vec<String>, output: &str)
    ensures
        views(final(args)@) == views(old(args)@) + concat_tail(output@),
{
    push_arg(args, "-c:v");
    push_arg(args, "libx264");
    push_arg(args, "-preset");
    push_arg(args, "veryfast");
    push_arg(args, "-crf");
    push_arg(args, "23");
    push_arg(args, "-pix_fmt");
    push_arg(args, "yuv420p");
    push_arg(args, "-c:a");
    push_arg(args, "aac");
    push_arg(args, "-ar");
    push_arg(args, "48000");
    push_arg(args, "-b:a");
    push_arg(args, "128k");
    push_arg(args, output);
    assert(views(args@) =~= views(old(args)@) + concat_tail(output@));
}

/// ffmpeg arguments that join `clips` into `output` with the given
/// transitions, each `trans_ms` milliseconds long.
pub fn concat_args(clips: &[Clip], output: &str, transitions: &[&str], trans_ms: i32) -> (args: Vec<String>)
    requires
        clips@.len() >= 1,
        transitions@.len() >= clips@.len() - 1,
    ensures
        views(args@) == concat_args_spec(clips@, output@, str_views(transitions@), trans_ms as int),
{
    if clips.len() == 1 {
        return copy_args_exec(clips[0].path.as_str(), output);
    }
    let n = clips.len();
    let mut args: Vec<String> = Vec::new();
    push_arg(&mut args, "-hide_banner");
    push_arg(&mut args, "-loglevel");
    push_arg(&mut args, "error");
    push_arg(&mut args, "-y");
    let ghost head = views(args@);
    let mut i: usize = 0;
    while i < n
        invariant
            i <= n == clips@.len(),
            views(args@) == head + input_args(clips@, i as nat),
        decreases n - i,
    {
        push_arg(&mut args, "-i");
        push_arg(&mut args, clips[i].path.as_str());
        assert(views(args@) =~= head + input_args(clips@, (i + 1) as nat));
        i = i + 1;
    }
    let ghost mid = views(args@);
    push_arg(&mut args, "-filter_complex");
    push_owned(&mut args, build_xfade_filter(clips, transitions, trans_ms));
    push_arg(&mut args, "-map");
    push_owned(&mut args, label("[v", n - 1));
    push_arg(&mut args, "-map");
    push_owned(&mut args, label("[a", n - 1));
    push_concat_tail(&mut args, output);
    assert(views(args@) =~= concat_args_spec(clips@, output@, str_views(transitions@), trans_ms as int));
    args
}

/// ffmpeg arguments for `concat_with_transitions`: the clips joined in order
/// into `output`, neighbouring clips linked by a transition picked at random.
pub fn concat_with_transitions_args(clips: &[Clip], output: &str, trans_ms: i32) -> (args: Vec<String>)
    requires
        clips@.len() >= 1,
    ensures
        exists|trs: Seq<Seq<char>>|
            valid_transitions(trs, clips@.len() - 1) && views(args@) == concat_args_spec(
                clips@,
                output@,
                trs,
                trans_ms as int,
            ),
{
    let trans = pick_transitions(clips.len() - 1);
    let args = concat_args(clips, output, trans.as_slice(), trans_ms);
    assert(valid_transitions(str_views(trans@), clips@.len() - 1));
    args
}

} // verus!
