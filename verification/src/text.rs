//! Text helpers shared by the command and filter builders: whitespace
//! trimming, character escaping and the decimal rendering of integers and of
//! millisecond quantities.
use vstd::prelude::*;

verus! {

// ---------------------------------------------------------------------------
// Specifications
// ---------------------------------------------------------------------------

/// The Unicode `White_Space` property, which `char::is_whitespace` and
/// `str::trim` go by.
pub open spec fn is_ws(c: char) -> bool {
    ||| ('\u{9}' <= c && c <= '\u{d}')
    ||| c == ' '
    ||| c == '\u{85}'
    ||| c == '\u{a0}'
    ||| c == '\u{1680}'
    ||| ('\u{2000}' <= c && c <= '\u{200a}')
    ||| c == '\u{2028}'
    ||| c == '\u{2029}'
    ||| c == '\u{202f}'
    ||| c == '\u{205f}'
    ||| c == '\u{3000}'
}

/// Index of the first non-whitespace character of `s` at or after `i`
/// (`s.len()` when there is none).
pub open spec fn trim_lo(s: Seq<char>, i: int) -> int
    decreases s.len() - i,
{
    if i >= s.len() {
        s.len() as int
    } else if !is_ws(s[i]) {
        i
    } else {
        trim_lo(s, i + 1)
    }
}

/// End (exclusive) of the last non-whitespace character of `s` before `j`,
/// not going below `lo`.
pub open spec fn trim_hi(s: Seq<char>, lo: int, j: int) -> int
    decreases j - lo,
{
    if j <= lo {
        lo
    } else if !is_ws(s[j - 1]) {
        j
    } else {
        trim_hi(s, lo, j - 1)
    }
}

/// `s` without its leading and trailing whitespace (`str::trim`).
pub open spec fn trim(s: Seq<char>) -> Seq<char> {
    let lo = trim_lo(s, 0);
    s.subrange(lo, trim_hi(s, lo, s.len() as int))
}

/// Whether `s` holds nothing but whitespace (`s.trim().is_empty()`).
pub open spec fn is_blank(s: Seq<char>) -> bool {
    forall|i: int| 0 <= i < s.len() ==> is_ws(#[trigger] s[i])
}

/// The decimal digit `d` (0..=9) as a character.
pub open spec fn digit(d: nat) -> char {
    if d == 0 { '0' }
    else if d == 1 { '1' }
    else if d == 2 { '2' }
    else if d == 3 { '3' }
    else if d == 4 { '4' }
    else if d == 5 { '5' }
    else if d == 6 { '6' }
    else if d == 7 { '7' }
    else if d == 8 { '8' }
    else { '9' }
}

/// Decimal rendering of a natural number, without leading zeros.
pub open spec fn dec(n: nat) -> Seq<char>
    decreases n,
{
    if n < 10 {
        seq![digit(n)]
    } else {
        dec(n / 10).push(digit(n % 10))
    }
}

/// `n` written with at least `width` digits, padded with leading zeros.
pub open spec fn dec_padded(n: nat, width: nat) -> Seq<char> {
    let d = dec(n);
    if d.len() >= width {
        d
    } else {
        Seq::new((width - d.len()) as nat, |i: int| '0') + d
    }
}

/// `s` with its trailing `'0'` characters removed.
pub open spec fn strip_zeros(s: Seq<char>) -> Seq<char>
    decreases s.len(),
{
    if s.len() > 0 && s.last() == '0' {
        strip_zeros(s.drop_last())
    } else {
        s
    }
}

/// The sign prefix of a value.
pub open spec fn sign(v: int) -> Seq<char> {
    if v < 0 { seq!['-'] } else { seq![] }
}

/// A millisecond quantity `v` written as seconds with exactly three
/// decimals (`format!("{:.3}", v as f64 / 1000.0)`).
pub open spec fn millis_fixed3(v: int) -> Seq<char> {
    let a = if v < 0 { -v } else { v };
    sign(v) + dec((a / 1000) as nat) + seq!['.'] + dec_padded((a % 1000) as nat, 3)
}

/// A millisecond quantity `v` written as seconds in the shortest form that
/// names it exactly: no decimal point for whole seconds, otherwise the
/// fraction without trailing zeros (`format!("{}", v as f64 / 1000.0)`).
pub open spec fn millis_short(v: int) -> Seq<char> {
    let a = if v < 0 { -v } else { v };
    if a % 1000 == 0 {
        sign(v) + dec((a / 1000) as nat)
    } else {
        sign(v) + dec((a / 1000) as nat) + seq!['.'] + strip_zeros(
            dec_padded((a % 1000) as nat, 3),
        )
    }
}

/// `s` with every occurrence of `from` replaced by `to`.
pub open spec fn replace_char(s: Seq<char>, from: char, to: Seq<char>) -> Seq<char>
    decreases s.len(),
{
    if s.len() == 0 {
        s
    } else {
        replace_char(s.drop_last(), from, to) + (if s.last() == from {
            to
        } else {
            seq![s.last()]
        })
    }
}

// ---------------------------------------------------------------------------
// Lemmas
// ---------------------------------------------------------------------------

proof fn lemma_trim_lo_bounds(s: Seq<char>, i: int)
    requires
        0 <= i <= s.len(),
    ensures
        i <= trim_lo(s, i) <= s.len(),
        forall|k: int| i <= k < trim_lo(s, i) ==> is_ws(#[trigger] s[k]),
        trim_lo(s, i) < s.len() ==> !is_ws(s[trim_lo(s, i)]),
    decreases s.len() - i,
{
    if i < s.len() && is_ws(s[i]) {
        lemma_trim_lo_bounds(s, i + 1);
    }
}

proof fn lemma_trim_hi_bounds(s: Seq<char>, lo: int, j: int)
    requires
        0 <= lo <= j <= s.len(),
    ensures
        lo <= trim_hi(s, lo, j) <= j,
        forall|k: int| trim_hi(s, lo, j) <= k < j ==> is_ws(#[trigger] s[k]),
        trim_hi(s, lo, j) > lo ==> !is_ws(s[trim_hi(s, lo, j) - 1]),
    decreases j - lo,
{
    if j > lo && is_ws(s[j - 1]) {
        lemma_trim_hi_bounds(s, lo, j - 1);
    }
}

/// A string trims to nothing exactly when it is all whitespace.
pub proof fn lemma_trim_empty_iff_blank(s: Seq<char>)
    ensures
        trim(s).len() == 0 <==> is_blank(s),
{
    let lo = trim_lo(s, 0);
    lemma_trim_lo_bounds(s, 0);
    lemma_trim_hi_bounds(s, lo, s.len() as int);
    let hi = trim_hi(s, lo, s.len() as int);
    if hi == lo {
        assert forall|i: int| 0 <= i < s.len() implies is_ws(#[trigger] s[i]) by {
            if i < lo {
            } else {
                assert(hi <= i);
            }
        }
    } else {
        assert(!is_ws(s[lo]));
    }
}

/// The decimal rendering of a number is never empty.
pub proof fn lemma_dec_nonempty(n: nat)
    ensures
        dec(n).len() >= 1,
    decreases n,
{
    if n >= 10 {
        lemma_dec_nonempty(n / 10);
    }
}

// ---------------------------------------------------------------------------
// Executable helpers
// ---------------------------------------------------------------------------

/// `String::push` of std, which appends one character: the string's text
/// grows by exactly that character.
#[verifier::external_body]
pub(crate) fn push_char(s: &mut String, c: char)
    ensures
        final(s)@ == old(s)@.push(c),
{
    s.push(c)
}

/// The characters of `s`, in order.
pub fn chars_of(s: &str) -> (v: Vec<char>)
    ensures
        v@ == s@,
{
    let mut v: Vec<char> = Vec::new();
    for c in it: s.chars()
        invariant
            v@ == it.seq().take(it.index() as int),
            it.seq() == s@,
    {
        v.push(c);
    }
    v
}

/// The string made of `v[lo..hi]`.
pub fn string_of_range(v: &Vec<char>, lo: usize, hi: usize) -> (s: String)
    requires
        lo <= hi <= v.len(),
    ensures
        s@ == v@.subrange(lo as int, hi as int),
{
    let mut s = String::new();
    let mut i = lo;
    while i < hi
        invariant
            lo <= i <= hi <= v.len(),
            s@ == v@.subrange(lo as int, i as int),
        decreases hi - i,
    {
        push_char(&mut s, v[i]);
        i = i + 1;
        assert(s@ =~= v@.subrange(lo as int, i as int));
    }
    s
}

/// `char::is_whitespace`.
pub fn is_whitespace(c: char) -> (b: bool)
    ensures
        b == is_ws(c),
{
    ('\u{9}' <= c && c <= '\u{d}') || c == ' ' || c == '\u{85}' || c == '\u{a0}'
        || c == '\u{1680}' || ('\u{2000}' <= c && c <= '\u{200a}') || c == '\u{2028}'
        || c == '\u{2029}' || c == '\u{202f}' || c == '\u{205f}' || c == '\u{3000}'
}

/// The bounds `(lo, hi)` of `v` without its leading and trailing whitespace.
pub fn trim_bounds(v: &Vec<char>) -> (r: (usize, usize))
    ensures
        r.0 == trim_lo(v@, 0),
        r.1 == trim_hi(v@, r.0 as int, v@.len() as int),
        r.0 <= r.1 <= v.len(),
{
    let mut lo: usize = 0;
    while lo < v.len() && is_whitespace(v[lo])
        invariant
            lo <= v.len(),
            trim_lo(v@, 0) == trim_lo(v@, lo as int),
        decreases v.len() - lo,
    {
        lo = lo + 1;
    }
    let mut hi: usize = v.len();
    while hi > lo && is_whitespace(v[hi - 1])
        invariant
            lo <= hi <= v.len(),
            trim_hi(v@, lo as int, v@.len() as int) == trim_hi(v@, lo as int, hi as int),
        decreases hi,
    {
        hi = hi - 1;
    }
    (lo, hi)
}

/// `s.trim()`, as an owned string.
pub fn trim_str(s: &str) -> (t: String)
    ensures
        t@ == trim(s@),
{
    let v = chars_of(s);
    let (lo, hi) = trim_bounds(&v);
    string_of_range(&v, lo, hi)
}

/// `s.trim().is_empty()`.
pub fn is_blank_str(s: &str) -> (b: bool)
    ensures
        b == is_blank(s@),
        b == (trim(s@).len() == 0),
{
    proof {
        lemma_trim_empty_iff_blank(s@);
    }
    let v = chars_of(s);
    let (lo, hi) = trim_bounds(&v);
    lo == hi
}

/// Whether two strings hold the same characters.
pub fn str_eq(a: &str, b: &str) -> (r: bool)
    ensures
        r == (a@ == b@),
{
    let x = chars_of(a);
    let y = chars_of(b);
    if x.len() != y.len() {
        return false;
    }
    let mut i: usize = 0;
    while i < x.len()
        invariant
            i <= x.len() == y.len(),
            x@ == a@,
            y@ == b@,
            forall|k: int| 0 <= k < i ==> x@[k] == y@[k],
        decreases x.len() - i,
    {
        if x[i] != y[i] {
            assert(a@[i as int] != b@[i as int]);
            return false;
        }
        i = i + 1;
    }
    assert(x@ =~= y@);
    true
}

/// The digit character for `d`.
pub fn digit_char(d: u8) -> (c: char)
    requires
        d < 10,
    ensures
        c == digit(d as nat),
{
    if d == 0 { '0' }
    else if d == 1 { '1' }
    else if d == 2 { '2' }
    else if d == 3 { '3' }
    else if d == 4 { '4' }
    else if d == 5 { '5' }
    else if d == 6 { '6' }
    else if d == 7 { '7' }
    else if d == 8 { '8' }
    else { '9' }
}

/// Appends the decimal rendering of `n` to `s`.
pub fn push_dec(s: &mut String, n: u128)
    ensures
        final(s)@ == old(s)@ + dec(n as nat),
    decreases n,
{
    if n < 10 {
        push_char(s, digit_char(n as u8));
        assert(dec(n as nat) == seq![digit(n as nat)]);
    } else {
        push_dec(s, n / 10);
        push_char(s, digit_char((n % 10) as u8));
        assert(dec(n as nat) == dec((n / 10) as nat).push(digit((n % 10) as nat)));
    }
}

/// Appends `n` written with at least `width` digits (zero padded).
pub fn push_dec_padded(s: &mut String, n: u128, width: usize)
    ensures
        final(s)@ == old(s)@ + dec_padded(n as nat, width as nat),
{
    let mut digits = String::new();
    push_dec(&mut digits, n);
    let dv = chars_of(digits.as_str());
    let len = dv.len();
    let ghost start = s@;
    if len < width {
        let mut k: usize = 0;
        while k < width - len
            invariant
                k <= width - len,
                len < width,
                s@ == start + Seq::new(k as nat, |i: int| '0'),
            decreases width - len - k,
        {
            push_char(s, '0');
            k = k + 1;
            assert(s@ =~= start + Seq::new(k as nat, |i: int| '0'));
        }
    }
    let ghost mid = s@;
    let mut i: usize = 0;
    while i < len
        invariant
            i <= len == dv.len(),
            dv@ == dec(n as nat),
            s@ == mid + dv@.take(i as int),
        decreases len - i,
    {
        push_char(s, dv[i]);
        i = i + 1;
        assert(s@ =~= mid + dv@.take(i as int));
    }
    assert(dv@.take(len as int) =~= dv@);
    assert(s@ =~= start + dec_padded(n as nat, width as nat));
}

/// The absolute value of `v`, which always fits an `u128`.
pub fn abs_i128(v: i128) -> (a: u128)
    ensures
        a as int == (if v < 0 { -v } else { v as int }),
{
    if v < 0 {
        ((-(v + 1)) as u128) + 1
    } else {
        v as u128
    }
}

/// Appends the sign prefix of `v`.
pub(crate) fn push_sign(s: &mut String, v: i128)
    ensures
        final(s)@ == old(s)@ + sign(v as int),
{
    if v < 0 {
        push_char(s, '-');
        assert(final(s)@ =~= old(s)@ + sign(v as int));
    } else {
        assert(s@ =~= s@ + sign(v as int));
    }
}

/// Appends `millis_fixed3(v)`.
pub fn push_millis_fixed3(s: &mut String, v: i128)
    ensures
        final(s)@ == old(s)@ + millis_fixed3(v as int),
{
    let ghost start = s@;
    let a = abs_i128(v);
    push_sign(s, v);
    push_dec(s, a / 1000);
    push_char(s, '.');
    push_dec_padded(s, a % 1000, 3);
    assert(s@ =~= start + millis_fixed3(v as int));
}

/// Appends `strip_zeros(d)` where `d` is three digits.
fn push_stripped(s: &mut String, d: &Vec<char>)
    ensures
        final(s)@ == old(s)@ + strip_zeros(d@),
{
    let mut n = d.len();
    assert(d@.take(n as int) =~= d@);
    while n > 0 && d[n - 1] == '0'
        invariant
            n <= d.len(),
            strip_zeros(d@) == strip_zeros(d@.take(n as int)),
        decreases n,
    {
        assert(d@.take(n as int).drop_last() =~= d@.take(n - 1));
        n = n - 1;
    }
    assert(strip_zeros(d@.take(n as int)) == d@.take(n as int));
    let ghost start = s@;
    let mut i: usize = 0;
    while i < n
        invariant
            i <= n <= d.len(),
            s@ == start + d@.take(i as int),
        decreases n - i,
    {
        push_char(s, d[i]);
        i = i + 1;
        assert(s@ =~= start + d@.take(i as int));
    }
    assert(d@.take(d@.len() as int) =~= d@);
}

/// Appends `millis_short(v)`.
pub fn push_millis_short(s: &mut String, v: i128)
    ensures
        final(s)@ == old(s)@ + millis_short(v as int),
{
    let ghost start = s@;
    let a = abs_i128(v);
    push_sign(s, v);
    push_dec(s, a / 1000);
    if a % 1000 != 0 {
        push_char(s, '.');
        let mut frac = String::new();
        push_dec_padded(&mut frac, a % 1000, 3);
        let fv = chars_of(frac.as_str());
        assert(fv@ =~= dec_padded((a % 1000) as nat, 3));
        push_stripped(s, &fv);
    }
    assert(s@ =~= start + millis_short(v as int));
}

/// Appends the characters of `t` to `s`.
pub fn push_str(s: &mut String, t: &str)
    ensures
        final(s)@ == old(s)@ + t@,
{
    s.append(t);
}

/// `s.replace(from, to)` for a single-character pattern.
pub fn replace_char_str(s: &str, from: char, to: &str) -> (r: String)
    ensures
        r@ == replace_char(s@, from, to@),
{
    let v = chars_of(s);
    let mut r = String::new();
    let mut i: usize = 0;
    while i < v.len()
        invariant
            i <= v.len(),
            v@ == s@,
            r@ == replace_char(v@.take(i as int), from, to@),
        decreases v.len() - i,
    {
        let c = v[i];
        if c == from {
            push_str(&mut r, to);
        } else {
            push_char(&mut r, c);
        }
        assert(v@.take(i + 1).drop_last() =~= v@.take(i as int));
        i = i + 1;
    }
    assert(v@.take(v@.len() as int) =~= v@);
    r
}

/// The texts of a list of strings.
pub open spec fn views(v: Seq<String>) -> Seq<Seq<char>> {
    v.map_values(|s: String| s@)
}

/// Appends a copy of `s` to an argument list.
pub fn push_arg(args: &mut Vec<String>, s: &str)
    ensures
        views(final(args)@) == views(old(args)@).push(s@),
{
    let mut t = String::new();
    t.append(s);
    args.push(t);
    assert(views(args@) =~= views(old(args)@).push(s@));
}

/// Appends an owned string to an argument list.
pub fn push_owned(args: &mut Vec<String>, s: String)
    ensures
        views(final(args)@) == views(old(args)@).push(s@),
{
    let ghost t = s@;
    args.push(s);
    assert(views(args@) =~= views(old(args)@).push(t));
}


/// The pieces of `s` between separators (`str::split` with a character
/// predicate), empty pieces included; always at least one piece.
pub open spec fn split_by(s: Seq<char>, sep: spec_fn(char) -> bool) -> Seq<Seq<char>>
    decreases s.len(),
{
    if s.len() == 0 {
        seq![seq![]]
    } else {
        let p = split_by(s.drop_last(), sep);
        if sep(s.last()) {
            p.push(seq![])
        } else {
            p.update(p.len() - 1, p.last().push(s.last()))
        }
    }
}

/// The non-empty items of `ps`, in order.
pub open spec fn nonempty(ps: Seq<Seq<char>>) -> Seq<Seq<char>>
    decreases ps.len(),
{
    if ps.len() == 0 {
        seq![]
    } else {
        nonempty(ps.drop_last()) + (if ps.last().len() > 0 {
            seq![ps.last()]
        } else {
            seq![]
        })
    }
}

/// The whitespace-separated words of `s` (`str::split_whitespace`).
pub open spec fn words(s: Seq<char>) -> Seq<Seq<char>> {
    nonempty(split_by(s, |c: char| is_ws(c)))
}

pub proof fn lemma_split_by_nonempty(s: Seq<char>, sep: spec_fn(char) -> bool)
    ensures
        split_by(s, sep).len() >= 1,
    decreases s.len(),
{
    if s.len() > 0 {
        lemma_split_by_nonempty(s.drop_last(), sep);
    }
}

/// The words of `v`.
pub fn split_words(v: &Vec<char>) -> (r: Vec<Vec<char>>)
    ensures
        r@.map_values(|w: Vec<char>| w@) == words(v@),
{
    let ghost sep = |c: char| is_ws(c);
    let mut done: Vec<Vec<char>> = Vec::new();
    let mut cur: Vec<char> = Vec::new();
    let mut i: usize = 0;
    while i < v.len()
        invariant
            i <= v@.len(),
            sep == (|c: char| is_ws(c)),
            split_by(v@.take(i as int), sep).len() >= 1,
            cur@ == split_by(v@.take(i as int), sep).last(),
            done@.map_values(|w: Vec<char>| w@) == nonempty(
                split_by(v@.take(i as int), sep).drop_last(),
            ),
        decreases v.len() - i,
    {
        let c = v[i];
        let ghost p = split_by(v@.take(i as int), sep);
        assert(v@.take(i + 1).drop_last() =~= v@.take(i as int));
        if is_whitespace(c) {
            let ghost before = done@.map_values(|w: Vec<char>| w@);
            if cur.len() > 0 {
                let w = cur.clone();
                done.push(w);
                assert(done@.map_values(|w: Vec<char>| w@) =~= before.push(cur@));
            }
            assert(split_by(v@.take(i + 1), sep).drop_last() =~= p);
            assert(p =~= p.drop_last().push(p.last()));
            cur = Vec::new();
        } else {
            cur.push(c);
            assert(split_by(v@.take(i + 1), sep).drop_last() =~= p.drop_last());
        }
        i = i + 1;
    }
    assert(v@.take(v@.len() as int) =~= v@);
    let ghost p = split_by(v@, sep);
    assert(p =~= p.drop_last().push(p.last()));
    if cur.len() > 0 {
        let ghost before = done@.map_values(|w: Vec<char>| w@);
        done.push(cur);
        assert(done@.map_values(|w: Vec<char>| w@) =~= before.push(p.last()));
    }
    done
}

} // verus!
