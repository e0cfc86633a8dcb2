//! What the mixer needs to know about the ffmpeg installation: the default
//! font for text, and whether a filter is compiled in.
use crate::text::{chars_of, split_by, split_words, words, lemma_split_by_nonempty};
use vstd::prelude::*;

verus! {

/// The operating system the mixer runs on.
#[derive(Debug, Clone, Copy, PartialEq, Eq)]
pub enum Platform {
    MacOs,
    Windows,
    Other,
}

/// The font file drawtext uses for CJK text when none is given.
pub open spec fn default_cjk_font_spec(platform: Platform) -> Seq<char> {
    match platform {
        Platform::MacOs => "/System/Library/Fonts/PingFang.ttc"@,
        Platform::Windows => "C:/Windows/Fonts/msyh.ttc"@,
        Platform::Other => "/usr/share/fonts/truetype/noto/NotoSansCJK-Regular.ttc"@,
    }
}

/// The platform's default CJK font file for drawtext.
pub fn default_cjk_font(platform: Platform) -> (path: &'static str)
    ensures
        path@ == default_cjk_font_spec(platform),
{
    match platform {
        // macOS ships PingFang; FFmpeg with FreeType reads the first face of the .ttc
        Platform::MacOs => "/System/Library/Fonts/PingFang.ttc",
        Platform::Windows => "C:/Windows/Fonts/msyh.ttc",
        // the usual Linux location (fonts-noto-cjk)
        Platform::Other => "/usr/share/fonts/truetype/noto/NotoSansCJK-Regular.ttc",
    }
}

/// The lines of `s` (split at `'\n'`).
pub open spec fn lines(s: Seq<char>) -> Seq<Seq<char>> {
    split_by(s, |c: char| c == '\n')
}

/// Whether `ffmpeg -filters` output lists filter `name`: some line's second
/// whitespace-separated column is `name`. (Filter lines read
/// `" T. NAME    DESC"`.)
pub open spec fn filter_listed_spec(output: Seq<char>, name: Seq<char>) -> bool {
    exists|i: int|
        0 <= i < lines(output).len() && words(#[trigger] lines(output)[i]).len() >= 2 && words(
            lines(output)[i],
        )[1] == name
}

/// Whether the second word of `line` is `name`.
fn second_word_is(line: &Vec<char>, name: &Vec<char>) -> (b: bool)
    ensures
        b == (words(line@).len() >= 2 && words(line@)[1] == name@),
{
    let ws = split_words(line);
    if ws.len() < 2 {
        return false;
    }
    let w = &ws[1];
    assert(ws@.map_values(|w: Vec<char>| w@)[1] == w@);
    if w.len() != name.len() {
        return false;
    }
    let mut i: usize = 0;
    while i < w.len()
        invariant
            i <= w@.len() == name@.len(),
            w@ == words(line@)[1],
            ws@.len() >= 2,
            forall|k: int| 0 <= k < i ==> w@[k] == name@[k],
        decreases w.len() - i,
    {
        if w[i] != name[i] {
            assert(w@[i as int] != name@[i as int]);
            return false;
        }
        i = i + 1;
    }
    assert(w@ =~= name@);
    true
}

/// Whether `ffmpeg -filters` output lists the filter `name`.
pub fn filter_listed(output: &str, name: &str) -> (b: bool)
    ensures
        b == filter_listed_spec(output@, name@),
{
    let v = chars_of(output);
    let nv = chars_of(name);
    let ghost sep = |c: char| c == '\n';
    let mut cur: Vec<char> = Vec::new();
    let mut i: usize = 0;
    while i < v.len()
        invariant
            i <= v@.len(),
            v@ == output@,
            nv@ == name@,
            sep == (|c: char| c == '\n'),
            split_by(v@.take(i as int), sep).len() >= 1,
            cur@ == split_by(v@.take(i as int), sep).last(),
            forall|j: int|
                0 <= j < split_by(v@.take(i as int), sep).len() - 1 ==> !(words(
                    #[trigger] split_by(v@.take(i as int), sep)[j],
                ).len() >= 2 && words(split_by(v@.take(i as int), sep)[j])[1] == name@),
        decreases v.len() - i,
    {
        let c = v[i];
        let ghost p = split_by(v@.take(i as int), sep);
        assert(v@.take(i + 1).drop_last() =~= v@.take(i as int));
        if c == '\n' {
            if second_word_is(&cur, &nv) {
                assert(v@ == output@);
                assert(lines(v@)[p.len() - 1] == cur@) by {
                    lemma_lines_prefix(v@, (i + 1) as int);
                    assert(split_by(v@.take(i + 1), sep) == p.push(seq![]));
                    assert(split_by(v@.take(i + 1), sep)[p.len() - 1] == cur@);
                }
                assert(0 <= p.len() - 1 < lines(output@).len()) by {
                    lemma_lines_prefix(v@, (i + 1) as int);
                }
                assert(words(lines(output@)[p.len() - 1]).len() >= 2 && words(
                    lines(output@)[p.len() - 1],
                )[1] == name@);
                return true;
            }
            cur = Vec::new();
        } else {
            cur.push(c);
        }
        i = i + 1;
    }
    assert(v@.take(v@.len() as int) =~= v@);
    let r = second_word_is(&cur, &nv);
    proof {
        let ls = lines(v@);
        assert(ls == split_by(v@, sep));
        if !r {
            assert forall|j: int| 0 <= j < ls.len() implies !(words(#[trigger] ls[j]).len() >= 2
                && words(ls[j])[1] == name@) by {
                if j < ls.len() - 1 {
                }
            }
        }
    }
    r
}

proof fn lemma_lines_prefix(s: Seq<char>, n: int)
    requires
        0 <= n <= s.len(),
    ensures
        forall|j: int|
            0 <= j < split_by(s.take(n), |c: char| c == '\n').len() - 1 ==> (#[trigger] lines(s)[j])
                == split_by(s.take(n), |c: char| c == '\n')[j],
        split_by(s.take(n), |c: char| c == '\n').len() <= lines(s).len(),
    decreases s.len() - n,
{
    let sep = |c: char| c == '\n';
    if n < s.len() {
        lemma_lines_prefix(s, n + 1);
        assert(s.take(n + 1).drop_last() =~= s.take(n));
        lemma_split_by_nonempty(s.take(n), sep);
    } else {
        assert(s.take(n) =~= s);
    }
}

} // verus!
