//! Character-level scanning: runs of a character class, fixed tokens, line
//! endings and blank lines, digit strings, and the conversion of text to
//! and from character sequences.
use vstd::prelude::*;
use crate::grammar::{
    alphanumeric, digit_val, digits_value, has_tag, in_class, lemma_run_end_bounds, line_end,
    run_end, skip_blank, ws, CharClass,
};

verus! {

/// `char::is_alphanumeric`: whether `c` has the Unicode `Alphabetic`
/// property or a numeric general category. The result is named by
/// `alphanumeric`; nothing more is claimed of it.
#[verifier::external_body]
fn is_alphanumeric(c: char) -> (b: bool)
    ensures
        b == alphanumeric(c),
{
    c.is_alphanumeric()
}

/// `String::push`: appends `c` to `s`.
#[verifier::external_body]
fn push_char(s: &mut String, c: char)
    ensures
        final(s)@ == old(s)@.push(c),
{
    s.push(c)
}

/// Whether `c` belongs to class `k`.
pub fn class_has(c: char, k: CharClass) -> (b: bool)
    ensures
        b == in_class(c, k),
{
    match k {
        CharClass::Space => c == ' ' || c == '\t',
        CharClass::Binary => c == '0' || c == '1',
        CharClass::Octal => '0' <= c && c <= '7',
        CharClass::Hex => ('0' <= c && c <= '7') || ('a' <= c && c <= 'f') || ('A' <= c && c
            <= 'F'),
        CharClass::Decimal => '0' <= c && c <= '9',
        CharClass::Alpha => ('a' <= c && c <= 'z') || ('A' <= c && c <= 'Z'),
        CharClass::IdentTail => if c <= '\x7f' {
            ('a' <= c && c <= 'z') || ('A' <= c && c <= 'Z') || ('0' <= c && c <= '9') || c == '_'
        } else {
            is_alphanumeric(c)
        },
        CharClass::NotQuote => c != '"',
    }
}

/// The end of the run of class `k` that starts at `i`.
pub fn scan(s: &[char], i: usize, k: CharClass) -> (e: usize)
    requires
        i <= s@.len(),
    ensures
        e == run_end(s@, i as int, k),
        i <= e <= s@.len(),
        s@.len() <= usize::MAX,
{
    let n = s.len();
    let mut j = i;
    while j < n && class_has(s[j], k)
        invariant
            n == s@.len(),
            i <= j <= n,
            run_end(s@, j as int, k) == run_end(s@, i as int, k),
        decreases n - j,
    {
        j = j + 1;
    }
    proof {
        lemma_run_end_bounds(s@, i as int, k);
    }
    j
}

/// The end of the blanks at `i`.
pub fn skip_ws(s: &[char], i: usize) -> (e: usize)
    requires
        i <= s@.len(),
    ensures
        e == ws(s@, i as int),
        i <= e <= s@.len(),
        s@.len() <= usize::MAX,
{
    scan(s, i, CharClass::Space)
}

/// Whether the characters of `t` stand at `i`.
pub fn tag(s: &[char], i: usize, t: &[char]) -> (b: bool)
    requires
        i <= s@.len(),
    ensures
        b == has_tag(s@, i as int, t@),
        s@.len() <= usize::MAX,
{
    let n = s.len();
    if t.len() > n - i {
        return false;
    }
    let mut k: usize = 0;
    while k < t.len()
        invariant
            n == s@.len(),
            i + t@.len() <= n,
            k <= t@.len(),
            forall|m: int| 0 <= m < k ==> s@[i + m] == t@[m],
        decreases t@.len() - k,
    {
        if s[i + k] != t[k] {
            assert(s@.subrange(i as int, i + t@.len())[k as int] != t@[k as int]);
            return false;
        }
        k += 1;
    }
    assert(s@.subrange(i as int, i + t@.len()) =~= t@);
    true
}

/// Whether the character `a` stands at `i`.
pub fn tag1(s: &[char], i: usize, a: char) -> (b: bool)
    requires
        i <= s@.len(),
    ensures
        b == has_tag(s@, i as int, seq![a]),
        s@.len() <= usize::MAX,
{
    let t = [a];
    assert(t@ =~= seq![a]);
    tag(s, i, &t)
}

/// Whether the characters `a`, `b` stand at `i`.
pub fn tag2(s: &[char], i: usize, a: char, b: char) -> (r: bool)
    requires
        i <= s@.len(),
    ensures
        r == has_tag(s@, i as int, seq![a, b]),
        s@.len() <= usize::MAX,
{
    let t = [a, b];
    assert(t@ =~= seq![a, b]);
    tag(s, i, &t)
}

/// Whether the characters `a`, `b`, `c` stand at `i`.
pub fn tag3(s: &[char], i: usize, a: char, b: char, c: char) -> (r: bool)
    requires
        i <= s@.len(),
    ensures
        r == has_tag(s@, i as int, seq![a, b, c]),
        s@.len() <= usize::MAX,
{
    let t = [a, b, c];
    assert(t@ =~= seq![a, b, c]);
    tag(s, i, &t)
}

/// Whether the characters `a` to `d` stand at `i`.
pub fn tag4(s: &[char], i: usize, a: char, b: char, c: char, d: char) -> (r: bool)
    requires
        i <= s@.len(),
    ensures
        r == has_tag(s@, i as int, seq![a, b, c, d]),
        s@.len() <= usize::MAX,
{
    let t = [a, b, c, d];
    assert(t@ =~= seq![a, b, c, d]);
    tag(s, i, &t)
}

/// Whether the characters `a` to `e` stand at `i`.
pub fn tag5(s: &[char], i: usize, a: char, b: char, c: char, d: char, e: char) -> (r: bool)
    requires
        i <= s@.len(),
    ensures
        r == has_tag(s@, i as int, seq![a, b, c, d, e]),
        s@.len() <= usize::MAX,
{
    let t = [a, b, c, d, e];
    assert(t@ =~= seq![a, b, c, d, e]);
    tag(s, i, &t)
}

/// Whether the characters `a` to `f` stand at `i`.
pub fn tag6(s: &[char], i: usize, a: char, b: char, c: char, d: char, e: char, f: char) -> (r: bool)
    requires
        i <= s@.len(),
    ensures
        r == has_tag(s@, i as int, seq![a, b, c, d, e, f]),
        s@.len() <= usize::MAX,
{
    let t = [a, b, c, d, e, f];
    assert(t@ =~= seq![a, b, c, d, e, f]);
    tag(s, i, &t)
}

/// The end of the line ending at `i`, or `i` where there is none.
pub fn scan_line_end(s: &[char], i: usize) -> (e: usize)
    requires
        i <= s@.len(),
    ensures
        e == line_end(s@, i as int),
        i <= e <= s@.len(),
        s@.len() <= usize::MAX,
{
    let n = s.len();
    if i < n && tag1(s, i, '\n') {
        i + 1
    } else if n - i >= 2 && tag2(s, i, '\r', '\n') {
        i + 2
    } else {
        i
    }
}

/// The position after the blank lines at `i`.
pub fn skip_blank_lines(s: &[char], i: usize) -> (e: usize)
    requires
        i <= s@.len(),
    ensures
        e == skip_blank(s@, i as int),
        i <= e <= s@.len(),
        s@.len() <= usize::MAX,
{
    let n = s.len();
    let mut j = i;
    loop
        invariant
            n == s@.len(),
            i <= j <= n,
            skip_blank(s@, j as int) == skip_blank(s@, i as int),
        decreases n - j,
    {
        let w = skip_ws(s, j);
        let e = scan_line_end(s, w);
        if e > w {
            j = e;
        } else {
            return j;
        }
    }
}

/// Appending a digit extends the value of a digit string.
pub proof fn lemma_digits_step(s: Seq<char>, a: int, b: int, radix: int)
    requires
        a <= b,
    ensures
        digits_value(s, a, b + 1, radix) == digits_value(s, a, b, radix) * radix + digit_val(
            s[b],
        ),
{
}

/// The value of a digit string never decreases as the string grows.
pub proof fn lemma_digits_grow(s: Seq<char>, a: int, b: int, c: int, radix: int)
    requires
        a <= b <= c,
        radix >= 1,
    ensures
        0 <= digits_value(s, a, b, radix) <= digits_value(s, a, c, radix),
    decreases c - b,
{
    if b < c {
        lemma_digits_grow(s, a, b, c - 1, radix);
        lemma_digits_nonneg(s, a, c - 1, radix);
        let v = digits_value(s, a, c - 1, radix);
        let d = digit_val(s[c - 1]);
        assert(v * radix + d >= v) by (nonlinear_arith)
            requires
                v >= 0,
                radix >= 1,
                d >= 0,
        ;
    } else {
        lemma_digits_nonneg(s, a, b, radix);
    }
}

/// The value of a digit string is never negative.
pub proof fn lemma_digits_nonneg(s: Seq<char>, a: int, b: int, radix: int)
    requires
        radix >= 1,
    ensures
        0 <= digits_value(s, a, b, radix),
    decreases b - a,
{
    if b > a {
        lemma_digits_nonneg(s, a, b - 1, radix);
        let v = digits_value(s, a, b - 1, radix);
        let d = digit_val(s[b - 1]);
        assert(v * radix + d >= 0) by (nonlinear_arith)
            requires
                v >= 0,
                radix >= 1,
                d >= 0,
        ;
    }
}

/// The value of the digits from `a` to `b` in base `radix`, or `None`
/// where it exceeds `isize::MAX`.
pub fn digits(s: &[char], a: usize, b: usize, radix: u32) -> (r: Option<isize>)
    requires
        a <= b <= s@.len(),
        2 <= radix <= 16,
    ensures
        match r {
            Some(v) => v == digits_value(s@, a as int, b as int, radix as int),
            None => digits_value(s@, a as int, b as int, radix as int) > isize::MAX,
        },
{
    let mut acc: u128 = 0;
    let mut p = a;
    while p < b
        invariant
            a <= p <= b <= s@.len(),
            2 <= radix <= 16,
            acc == digits_value(s@, a as int, p as int, radix as int),
            acc <= isize::MAX,
        decreases b - p,
    {
        let c = s[p];
        let d: u128 = if '0' <= c && c <= '9' {
            (c as u32 - '0' as u32) as u128
        } else if 'a' <= c && c <= 'f' {
            (c as u32 - 'a' as u32 + 10) as u128
        } else if 'A' <= c && c <= 'F' {
            (c as u32 - 'A' as u32 + 10) as u128
        } else {
            0
        };
        assert(d == digit_val(s@[p as int]));
        proof {
            lemma_digits_step(s@, a as int, p as int, radix as int);
        }
        assert(acc * (radix as u128) <= 0x7fff_ffff_ffff_ffff * 16) by (nonlinear_arith)
            requires
                acc <= 0x7fff_ffff_ffff_ffff,
                radix <= 16,
        ;
        acc = acc * (radix as u128) + d;
        p = p + 1;
        if acc > isize::MAX as u128 {
            proof {
                lemma_digits_grow(s@, a as int, p as int, b as int, radix as int);
            }
            return None;
        }
    }
    Some(acc as isize)
}

/// The characters of `text`, in order.
pub fn chars_of(text: &str) -> (v: Vec<char>)
    ensures
        v@ == text@,
{
    let mut v: Vec<char> = Vec::new();
    for c in it: text.chars()
        invariant
            v@ == it.seq().take(it.index() as int),
    {
        v.push(c);
    }
    v
}

/// The characters of `s` from `a` to `b`, as a string.
pub fn string_of(s: &[char], a: usize, b: usize) -> (r: String)
    requires
        a <= b <= s@.len(),
    ensures
        r@ == s@.subrange(a as int, b as int),
{
    let mut r = String::new();
    let mut p = a;
    while p < b
        invariant
            a <= p <= b <= s@.len(),
            r@ == s@.subrange(a as int, p as int),
        decreases b - p,
    {
        push_char(&mut r, s[p]);
        assert(s@.subrange(a as int, p + 1) =~= s@.subrange(a as int, p as int).push(s@[p as int]));
        p = p + 1;
    }
    r
}

} // verus!
