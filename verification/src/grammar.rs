//! The grammar of the surface syntax.
//!
//! Each `*_at` function says what parsing one syntactic category at a
//! position of a character sequence yields: the position just past what was
//! consumed together with the model of the node, a mismatch (so that an
//! alternative may be tried), or a numeric literal too large for `isize`,
//! which ends parsing.
//!
//! Alternatives are tried in a fixed order and the first that does not
//! mismatch wins; repetitions are greedy and stop at the first element that
//! mismatches, giving back what that element had consumed. Positions that
//! come from a recursive parse are checked to move forward before they are
//! parsed from again; every parser consumes at least one character when it
//! succeeds, so these checks never fail (see `lemma_*_advances`).
use vstd::prelude::*;
use crate::syntax::{Order, SpecBind, SpecCall, SpecExpr, SpecFunc, SpecItem, SpecPath, SpecPrim, SpecStmt};

verus! {

/// The outcome of parsing at a position.
pub enum Parsed<T> {
    /// Success: the position just past the consumed input, and the value.
    Done(int, T),
    /// The input does not match here.
    Mismatch,
    /// A numeric literal does not fit in `isize`.
    Overflow,
}

/// The value of a successful outcome mapped through `f`.
pub open spec fn map_parsed<A, B>(p: Parsed<A>, f: spec_fn(A) -> B) -> Parsed<B> {
    match p {
        Parsed::Done(j, a) => Parsed::Done(j, f(a)),
        Parsed::Mismatch => Parsed::Mismatch,
        Parsed::Overflow => Parsed::Overflow,
    }
}

/// `p`, or `q` when `p` mismatches.
pub open spec fn or_else<A>(p: Parsed<A>, q: Parsed<A>) -> Parsed<A> {
    match p {
        Parsed::Mismatch => q,
        _ => p,
    }
}

// ---------------------------------------------------------------------
// Characters.

/// The classes of characters that runs are made of.
#[derive(Clone, Copy)]
pub enum CharClass {
    /// A blank: a space or a tab.
    Space,
    /// `0` or `1`.
    Binary,
    /// `0` to `7`.
    Octal,
    /// The characters accepted after `0x`: `0` to `7`, `a` to `f`, `A` to `F`.
    Hex,
    /// An ASCII decimal digit.
    Decimal,
    /// An ASCII letter.
    Alpha,
    /// A character that may continue an identifier: alphanumeric, or `_`.
    /// On ASCII these are the letters, the digits and `_`; beyond ASCII,
    /// the characters that `char::is_alphanumeric` accepts.
    IdentTail,
    /// Anything but a double quote.
    NotQuote,
}

/// Whether `c` is alphanumeric in the sense of `char::is_alphanumeric`.
pub uninterp spec fn alphanumeric(c: char) -> bool;

pub open spec fn is_ascii_alpha(c: char) -> bool {
    ('a' <= c && c <= 'z') || ('A' <= c && c <= 'Z')
}

pub open spec fn in_class(c: char, k: CharClass) -> bool {
    match k {
        CharClass::Space => c == ' ' || c == '\t',
        CharClass::Binary => c == '0' || c == '1',
        CharClass::Octal => '0' <= c && c <= '7',
        CharClass::Hex => ('0' <= c && c <= '7') || ('a' <= c && c <= 'f') || ('A' <= c && c <= 'F'),
        CharClass::Decimal => '0' <= c && c <= '9',
        CharClass::Alpha => is_ascii_alpha(c),
        CharClass::IdentTail => if c <= '\x7f' {
            is_ascii_alpha(c) || ('0' <= c && c <= '9') || c == '_'
        } else {
            alphanumeric(c)
        },
        CharClass::NotQuote => c != '"',
    }
}

/// The end of the longest run of characters of class `k` that starts at `i`.
pub open spec fn run_end(s: Seq<char>, i: int, k: CharClass) -> int
    decreases s.len() - i,
{
    if 0 <= i < s.len() && in_class(s[i], k) {
        run_end(s, i + 1, k)
    } else {
        i
    }
}

/// The end of the blanks that start at `i`.
pub open spec fn ws(s: Seq<char>, i: int) -> int {
    run_end(s, i, CharClass::Space)
}

/// Whether the characters of `t` stand at `i`.
pub open spec fn has_tag(s: Seq<char>, i: int, t: Seq<char>) -> bool {
    0 <= i && i + t.len() <= s.len() && s.subrange(i, i + t.len()) == t
}

/// The end of a line ending (`\n` or `\r\n`) at `i`, or `i` where there is none.
pub open spec fn line_end(s: Seq<char>, i: int) -> int {
    if has_tag(s, i, seq!['\n']) {
        i + 1
    } else if has_tag(s, i, seq!['\r', '\n']) {
        i + 2
    } else {
        i
    }
}

/// The position after the blank lines (lines of blanks only) that start at `i`.
pub open spec fn skip_blank(s: Seq<char>, i: int) -> int
    decreases s.len() - i,
{
    let w = ws(s, i);
    let e = line_end(s, w);
    if e > w && i < e <= s.len() {
        skip_blank(s, e)
    } else {
        i
    }
}

// ---------------------------------------------------------------------
// Literals and identifiers.

/// The value of a digit character (letters count from ten).
pub open spec fn digit_val(c: char) -> int {
    if '0' <= c && c <= '9' {
        c as int - '0' as int
    } else if 'a' <= c && c <= 'f' {
        c as int - 'a' as int + 10
    } else if 'A' <= c && c <= 'F' {
        c as int - 'A' as int + 10
    } else {
        0
    }
}

/// The value of the digits from `a` to `b` in base `radix`.
pub open spec fn digits_value(s: Seq<char>, a: int, b: int, radix: int) -> int
    decreases b - a,
{
    if b <= a {
        0
    } else {
        digits_value(s, a, b - 1, radix) * radix + digit_val(s[b - 1])
    }
}

/// The literal made of the digits from `a` to `b`, which must fit in `isize`.
pub open spec fn literal(s: Seq<char>, a: int, b: int, radix: int) -> Parsed<int> {
    let v = digits_value(s, a, b, radix);
    if v <= isize::MAX {
        Parsed::Done(b, v)
    } else {
        Parsed::Overflow
    }
}

/// A numeric literal: `0b` binary, `0o` octal, `0x` hexadecimal digits, or
/// decimal digits.
pub open spec fn num_at(s: Seq<char>, i: int) -> Parsed<int> {
    let b = run_end(s, i + 2, CharClass::Binary);
    let o = run_end(s, i + 2, CharClass::Octal);
    let h = run_end(s, i + 2, CharClass::Hex);
    let d = run_end(s, i, CharClass::Decimal);
    if has_tag(s, i, seq!['0', 'b']) && b > i + 2 {
        literal(s, i + 2, b, 2)
    } else if has_tag(s, i, seq!['0', 'o']) && o > i + 2 {
        literal(s, i + 2, o, 8)
    } else if has_tag(s, i, seq!['0', 'x']) && h > i + 2 {
        literal(s, i + 2, h, 16)
    } else if d > i {
        literal(s, i, d, 10)
    } else {
        Parsed::Mismatch
    }
}

/// A string literal: one or more characters between double quotes.
pub open spec fn str_at(s: Seq<char>, i: int) -> Parsed<Seq<char>> {
    let e = run_end(s, i + 1, CharClass::NotQuote);
    if has_tag(s, i, seq!['"']) && e > i + 1 && has_tag(s, e, seq!['"']) {
        Parsed::Done(e + 1, s.subrange(i + 1, e))
    } else {
        Parsed::Mismatch
    }
}

/// An array literal `[n]`, blanks allowed inside the brackets.
pub open spec fn arr_at(s: Seq<char>, i: int) -> Parsed<int> {
    if has_tag(s, i, seq!['[']) {
        match num_at(s, ws(s, i + 1)) {
            Parsed::Done(j, n) => {
                let k = ws(s, j);
                if has_tag(s, k, seq![']']) {
                    Parsed::Done(k + 1, n)
                } else {
                    Parsed::Mismatch
                }
            },
            Parsed::Mismatch => Parsed::Mismatch,
            Parsed::Overflow => Parsed::Overflow,
        }
    } else {
        Parsed::Mismatch
    }
}

/// An identifier: `_` or a run of ASCII letters, then any identifier characters.
pub open spec fn name_at(s: Seq<char>, i: int) -> Parsed<Seq<char>> {
    if 0 <= i < s.len() && s[i] == '_' {
        let e = run_end(s, i + 1, CharClass::IdentTail);
        Parsed::Done(e, s.subrange(i, e))
    } else if 0 <= i < s.len() && is_ascii_alpha(s[i]) {
        let e = run_end(s, run_end(s, i, CharClass::Alpha), CharClass::IdentTail);
        Parsed::Done(e, s.subrange(i, e))
    } else {
        Parsed::Mismatch
    }
}

/// The `.name` segments that follow a path's first identifier at `j`.
pub open spec fn path_rest(s: Seq<char>, j: int) -> (int, SpecPath)
    decreases s.len() - j,
{
    if has_tag(s, j, seq!['.']) {
        match name_at(s, j + 1) {
            Parsed::Done(k, n) => if j < k <= s.len() {
                let r = path_rest(s, k);
                (r.0, seq![n] + r.1)
            } else {
                (j, Seq::empty())
            },
            _ => (j, Seq::empty()),
        }
    } else {
        (j, Seq::empty())
    }
}

/// A dotted path of identifiers.
pub open spec fn path_at(s: Seq<char>, i: int) -> Parsed<SpecPath> {
    match name_at(s, i) {
        Parsed::Done(j, n) => {
            let r = path_rest(s, j);
            Parsed::Done(r.0, seq![n] + r.1)
        },
        _ => Parsed::Mismatch,
    }
}

// ---------------------------------------------------------------------
// Expressions.

/// The binary operators, in the order in which they are tried.
#[derive(Clone, Copy)]
pub enum BinOp {
    Add,
    Sub,
    Mul,
    Eq,
    Ne,
    Ge,
    Le,
    Gt,
    Lt,
    And,
    Orr,
    BitAnd,
    BitOrr,
}

/// The characters that spell an operator.
pub open spec fn op_token(op: BinOp) -> Seq<char> {
    match op {
        BinOp::Add => seq!['+'],
        BinOp::Sub => seq!['-'],
        BinOp::Mul => seq!['*'],
        BinOp::Eq => seq!['=', '='],
        BinOp::Ne => seq!['!', '='],
        BinOp::Ge => seq!['>', '='],
        BinOp::Le => seq!['<', '='],
        BinOp::Gt => seq!['>'],
        BinOp::Lt => seq!['<'],
        BinOp::And => seq!['&', '&'],
        BinOp::Orr => seq!['|', '|'],
        BinOp::BitAnd => seq!['&'],
        BinOp::BitOrr => seq!['|'],
    }
}

/// The first operator, in the order of trial, that stands at `i`.
pub open spec fn op_at(s: Seq<char>, i: int) -> Option<BinOp> {
    if has_tag(s, i, op_token(BinOp::Add)) {
        Some(BinOp::Add)
    } else if has_tag(s, i, op_token(BinOp::Sub)) {
        Some(BinOp::Sub)
    } else if has_tag(s, i, op_token(BinOp::Mul)) {
        Some(BinOp::Mul)
    } else if has_tag(s, i, op_token(BinOp::Eq)) {
        Some(BinOp::Eq)
    } else if has_tag(s, i, op_token(BinOp::Ne)) {
        Some(BinOp::Ne)
    } else if has_tag(s, i, op_token(BinOp::Ge)) {
        Some(BinOp::Ge)
    } else if has_tag(s, i, op_token(BinOp::Le)) {
        Some(BinOp::Le)
    } else if has_tag(s, i, op_token(BinOp::Gt)) {
        Some(BinOp::Gt)
    } else if has_tag(s, i, op_token(BinOp::Lt)) {
        Some(BinOp::Lt)
    } else if has_tag(s, i, op_token(BinOp::And)) {
        Some(BinOp::And)
    } else if has_tag(s, i, op_token(BinOp::Orr)) {
        Some(BinOp::Orr)
    } else if has_tag(s, i, op_token(BinOp::BitAnd)) {
        Some(BinOp::BitAnd)
    } else if has_tag(s, i, op_token(BinOp::BitOrr)) {
        Some(BinOp::BitOrr)
    } else {
        None
    }
}

/// The expression that an operator builds from its operands; `>=`, `<=`
/// and `!=` are the negations of `<`, `>` and `==`.
pub open spec fn make_binary(op: BinOp, l: SpecPrim, r: SpecPrim) -> SpecExpr {
    match op {
        BinOp::Add => SpecExpr::Add(l, r),
        BinOp::Sub => SpecExpr::Sub(l, r),
        BinOp::Mul => SpecExpr::Mul(l, r),
        BinOp::And => SpecExpr::And(l, r),
        BinOp::Orr => SpecExpr::Orr(l, r),
        BinOp::BitAnd => SpecExpr::BitAnd(l, r),
        BinOp::BitOrr => SpecExpr::BitOrr(l, r),
        BinOp::Gt => SpecExpr::Ord(false, Order::Greater, l, r),
        BinOp::Lt => SpecExpr::Ord(false, Order::Less, l, r),
        BinOp::Eq => SpecExpr::Ord(false, Order::Equal, l, r),
        BinOp::Ge => SpecExpr::Ord(true, Order::Less, l, r),
        BinOp::Le => SpecExpr::Ord(true, Order::Greater, l, r),
        BinOp::Ne => SpecExpr::Ord(true, Order::Equal, l, r),
    }
}

/// The primaries that need no recursion: `true`, `false`, array, string
/// and numeric literals, in that order.
pub open spec fn prim_lit_at(s: Seq<char>, i: int) -> Parsed<SpecPrim> {
    if has_tag(s, i, seq!['t', 'r', 'u', 'e']) {
        Parsed::Done(i + 4, SpecPrim::Bool(true))
    } else if has_tag(s, i, seq!['f', 'a', 'l', 's', 'e']) {
        Parsed::Done(i + 5, SpecPrim::Bool(false))
    } else {
        match arr_at(s, i) {
            Parsed::Done(j, n) => Parsed::Done(j, SpecPrim::Arr(n as usize)),
            Parsed::Overflow => Parsed::Overflow,
            Parsed::Mismatch => match str_at(s, i) {
                Parsed::Done(j, t) => Parsed::Done(j, SpecPrim::Str(t)),
                _ => match num_at(s, i) {
                    Parsed::Done(j, n) => Parsed::Done(j, SpecPrim::Num(n as isize)),
                    Parsed::Overflow => Parsed::Overflow,
                    Parsed::Mismatch => Parsed::Mismatch,
                },
            },
        }
    }
}

/// A parenthesised expression.
pub open spec fn sect_at(s: Seq<char>, i: int) -> Parsed<SpecPrim>
    decreases s.len() - i, 2int,
{
    if has_tag(s, i, seq!['(']) {
        let a = ws(s, i + 1);
        if i < a <= s.len() {
            match expr_at(s, a) {
                Parsed::Done(j, e) => {
                    let k = ws(s, j);
                    if has_tag(s, k, seq![')']) {
                        Parsed::Done(k + 1, SpecPrim::Sect(Box::new(e)))
                    } else {
                        Parsed::Mismatch
                    }
                },
                Parsed::Mismatch => Parsed::Mismatch,
                Parsed::Overflow => Parsed::Overflow,
            }
        } else {
            Parsed::Mismatch
        }
    } else {
        Parsed::Mismatch
    }
}

/// A primary: parenthesised expression, literal, call or path, tried in
/// that order.
pub open spec fn prim_at(s: Seq<char>, i: int) -> Parsed<SpecPrim>
    decreases s.len() - i, 3int,
{
    or_else(
        sect_at(s, i),
        or_else(
            prim_lit_at(s, i),
            or_else(
                map_parsed(call_at(s, i), |c: SpecCall| SpecPrim::Call(c)),
                map_parsed(path_at(s, i), |p: SpecPath| SpecPrim::Path(p)),
            ),
        ),
    )
}

/// The binary expression or lone primary that starts with the primary `l`,
/// which ends at `j`; the whole expression starts at `i`.
pub open spec fn expr_tail_at(s: Seq<char>, i: int, j: int, l: SpecPrim) -> Parsed<SpecExpr>
    decreases s.len() - i, 4int,
{
    let k = ws(s, j);
    match op_at(s, k) {
        Some(op) => {
            let m = ws(s, k + op_token(op).len());
            if i < m <= s.len() {
                match prim_at(s, m) {
                    Parsed::Done(n, r) => Parsed::Done(n, make_binary(op, l, r)),
                    Parsed::Mismatch => Parsed::Done(j, SpecExpr::Prim(l)),
                    Parsed::Overflow => Parsed::Overflow,
                }
            } else {
                Parsed::Done(j, SpecExpr::Prim(l))
            }
        },
        None => Parsed::Done(j, SpecExpr::Prim(l)),
    }
}

/// An expression: `!` and a primary, a primary, an operator and a
/// primary, or a lone primary.
pub open spec fn expr_at(s: Seq<char>, i: int) -> Parsed<SpecExpr>
    decreases s.len() - i, 5int,
{
    let comp = if has_tag(s, i, seq!['!']) && i < ws(s, i + 1) <= s.len() {
        map_parsed(prim_at(s, ws(s, i + 1)), |p: SpecPrim| SpecExpr::Comp(p))
    } else {
        Parsed::Mismatch
    };
    or_else(
        comp,
        match prim_at(s, i) {
            Parsed::Done(j, l) => expr_tail_at(s, i, j, l),
            Parsed::Mismatch => Parsed::Mismatch,
            Parsed::Overflow => Parsed::Overflow,
        },
    )
}

/// A call: a path, blanks, and a parenthesised argument list.
pub open spec fn call_at(s: Seq<char>, i: int) -> Parsed<SpecCall>
    decreases s.len() - i, 1int,
{
    match path_at(s, i) {
        Parsed::Done(j, p) => {
            let k = ws(s, j);
            if has_tag(s, k, seq!['(']) && i < k + 1 {
                match args_at(s, k + 1) {
                    Parsed::Done(m, a) => if has_tag(s, m, seq![')']) {
                        Parsed::Done(m + 1, SpecCall { path: p, args: a })
                    } else {
                        Parsed::Mismatch
                    },
                    Parsed::Mismatch => Parsed::Mismatch,
                    Parsed::Overflow => Parsed::Overflow,
                }
            } else {
                Parsed::Mismatch
            }
        },
        _ => Parsed::Mismatch,
    }
}

/// One argument: an expression with the blanks around it.
pub open spec fn arg_at(s: Seq<char>, a: int) -> Parsed<SpecExpr>
    decreases s.len() - a, 6int,
{
    let b = ws(s, a);
    if a <= b && (a < b ==> b <= s.len()) {
        match expr_at(s, b) {
            Parsed::Done(c, e) => Parsed::Done(ws(s, c), e),
            Parsed::Mismatch => Parsed::Mismatch,
            Parsed::Overflow => Parsed::Overflow,
        }
    } else {
        Parsed::Mismatch
    }
}

/// A comma-separated argument list, possibly empty.
pub open spec fn args_at(s: Seq<char>, a: int) -> Parsed<Seq<SpecExpr>>
    decreases s.len() - a, 7int,
{
    match arg_at(s, a) {
        Parsed::Done(c, e) => if a < c <= s.len() {
            match args_rest(s, c) {
                Parsed::Done(d, es) => Parsed::Done(d, seq![e] + es),
                Parsed::Mismatch => Parsed::Mismatch,
                Parsed::Overflow => Parsed::Overflow,
            }
        } else {
            Parsed::Mismatch
        },
        Parsed::Mismatch => Parsed::Done(a, Seq::empty()),
        Parsed::Overflow => Parsed::Overflow,
    }
}

/// The `, argument` elements that follow the first argument at `c`.
pub open spec fn args_rest(s: Seq<char>, c: int) -> Parsed<Seq<SpecExpr>>
    decreases s.len() - c, 8int,
{
    if has_tag(s, c, seq![',']) {
        match arg_at(s, c + 1) {
            Parsed::Done(d, e) => if c < d <= s.len() {
                match args_rest(s, d) {
                    Parsed::Done(f, es) => Parsed::Done(f, seq![e] + es),
                    Parsed::Mismatch => Parsed::Mismatch,
                    Parsed::Overflow => Parsed::Overflow,
                }
            } else {
                Parsed::Mismatch
            },
            Parsed::Mismatch => Parsed::Done(c, Seq::empty()),
            Parsed::Overflow => Parsed::Overflow,
        }
    } else {
        Parsed::Done(c, Seq::empty())
    }
}

// ---------------------------------------------------------------------
// Statements and items.

/// `return`, optionally followed by an expression.
pub open spec fn ret_at(s: Seq<char>, i: int) -> Parsed<Option<SpecExpr>> {
    if has_tag(s, i, seq!['r', 'e', 't', 'u', 'r', 'n']) {
        match expr_at(s, ws(s, i + 6)) {
            Parsed::Done(j, e) => Parsed::Done(j, Some(e)),
            Parsed::Mismatch => Parsed::Done(i + 6, None),
            Parsed::Overflow => Parsed::Overflow,
        }
    } else {
        Parsed::Mismatch
    }
}

/// The annotation part of a binding, at `d`: `: Path =` or `:=`.
pub open spec fn anno_at(s: Seq<char>, d: int) -> Parsed<Option<SpecPath>> {
    let typed = if has_tag(s, d, seq![':']) {
        match path_at(s, ws(s, d + 1)) {
            Parsed::Done(e, p) => if has_tag(s, ws(s, e), seq!['=']) {
                Parsed::Done(ws(s, e) + 1, Some(p))
            } else {
                Parsed::Mismatch
            },
            _ => Parsed::Mismatch,
        }
    } else {
        Parsed::Mismatch
    };
    if typed is Done {
        typed
    } else if has_tag(s, d, seq![':', '=']) {
        Parsed::Done(d + 2, None)
    } else {
        Parsed::Mismatch
    }
}

/// A binding: `let` or `var`, blanks, a name, an annotation, and an expression.
pub open spec fn bind_at(s: Seq<char>, i: int) -> Parsed<SpecBind> {
    let kind = if has_tag(s, i, seq!['l', 'e', 't']) {
        Some(false)
    } else if has_tag(s, i, seq!['v', 'a', 'r']) {
        Some(true)
    } else {
        None
    };
    let b = run_end(s, i + 3, CharClass::Space);
    match kind {
        Some(mutable) => if b > i + 3 {
            match name_at(s, b) {
                Parsed::Done(c, n) => match anno_at(s, ws(s, c)) {
                    Parsed::Done(e, anno) => map_parsed(
                        expr_at(s, ws(s, e)),
                        |x: SpecExpr| SpecBind { mutable, name: n, anno, expr: x },
                    ),
                    _ => Parsed::Mismatch,
                },
                _ => Parsed::Mismatch,
            }
        } else {
            Parsed::Mismatch
        },
        None => Parsed::Mismatch,
    }
}

/// An assignment: a name, `=`, and an expression.
pub open spec fn assn_at(s: Seq<char>, i: int) -> Parsed<(Seq<char>, SpecExpr)> {
    match name_at(s, i) {
        Parsed::Done(c, n) => {
            let d = ws(s, c);
            if has_tag(s, d, seq!['=']) {
                map_parsed(expr_at(s, ws(s, d + 1)), |x: SpecExpr| (n, x))
            } else {
                Parsed::Mismatch
            }
        },
        _ => Parsed::Mismatch,
    }
}

/// One parameter, `name: Path`, with the blanks around it.
pub open spec fn param_at(s: Seq<char>, a: int) -> Parsed<(Seq<char>, SpecPath)> {
    match name_at(s, ws(s, a)) {
        Parsed::Done(c, n) => {
            let d = ws(s, c);
            if has_tag(s, d, seq![':']) {
                match path_at(s, ws(s, d + 1)) {
                    Parsed::Done(e, p) => Parsed::Done(ws(s, e), (n, p)),
                    _ => Parsed::Mismatch,
                }
            } else {
                Parsed::Mismatch
            }
        },
        _ => Parsed::Mismatch,
    }
}

/// The `, parameter` elements that follow the first parameter at `c`.
pub open spec fn params_rest(s: Seq<char>, c: int) -> (int, Seq<(Seq<char>, SpecPath)>)
    decreases s.len() - c,
{
    if has_tag(s, c, seq![',']) {
        match param_at(s, c + 1) {
            Parsed::Done(d, p) => if c < d <= s.len() {
                let r = params_rest(s, d);
                (r.0, seq![p] + r.1)
            } else {
                (c, Seq::empty())
            },
            _ => (c, Seq::empty()),
        }
    } else {
        (c, Seq::empty())
    }
}

/// A comma-separated parameter list, possibly empty.
pub open spec fn params_at(s: Seq<char>, a: int) -> (int, Seq<(Seq<char>, SpecPath)>) {
    match param_at(s, a) {
        Parsed::Done(c, p) => {
            let r = params_rest(s, c);
            (r.0, seq![p] + r.1)
        },
        _ => (a, Seq::empty()),
    }
}

/// The head of a conditional or loop: the keyword, blanks, an expression,
/// `:` and a line ending.
pub open spec fn head_at(s: Seq<char>, i: int, keyword: Seq<char>) -> Parsed<SpecExpr> {
    if has_tag(s, i, keyword) {
        head_rest_at(s, i + keyword.len())
    } else {
        Parsed::Mismatch
    }
}

/// What follows the keyword of a head, at `a`: blanks, an expression, `:`
/// and a line ending.
pub open spec fn head_rest_at(s: Seq<char>, a: int) -> Parsed<SpecExpr> {
    let b = run_end(s, a, CharClass::Space);
    if b > a {
        match expr_at(s, b) {
            Parsed::Done(c, e) => {
                let d = ws(s, c);
                if has_tag(s, d, seq![':']) && line_end(s, d + 1) > d + 1 {
                    Parsed::Done(line_end(s, d + 1), e)
                } else {
                    Parsed::Mismatch
                }
            },
            Parsed::Mismatch => Parsed::Mismatch,
            Parsed::Overflow => Parsed::Overflow,
        }
    } else {
        Parsed::Mismatch
    }
}

/// The head of a function definition: `def`, blanks, the name, the
/// parameter list, `->`, the result path, `:` and a line ending.
pub open spec fn def_head_at(s: Seq<char>, i: int) -> Parsed<(Seq<char>, Seq<(Seq<char>, SpecPath)>, SpecPath)> {
    let b = run_end(s, i + 3, CharClass::Space);
    if has_tag(s, i, seq!['d', 'e', 'f']) && b > i + 3 {
        match name_at(s, b) {
            Parsed::Done(c, n) => {
                let d = ws(s, c);
                let ps = params_at(s, d + 1);
                let f = ws(s, ps.0 + 1);
                if has_tag(s, d, seq!['(']) && has_tag(s, ps.0, seq![')']) && has_tag(
                    s,
                    f,
                    seq!['-', '>'],
                ) {
                    match path_at(s, ws(s, f + 2)) {
                        Parsed::Done(g, r) => {
                            let h = ws(s, g);
                            if has_tag(s, h, seq![':']) && line_end(s, h + 1) > h + 1 {
                                Parsed::Done(line_end(s, h + 1), (n, ps.1, r))
                            } else {
                                Parsed::Mismatch
                            }
                        },
                        _ => Parsed::Mismatch,
                    }
                } else {
                    Parsed::Mismatch
                }
            },
            _ => Parsed::Mismatch,
        }
    } else {
        Parsed::Mismatch
    }
}

/// A function definition whose body is indented deeper than `k`.
pub open spec fn func_at(k: int, s: Seq<char>, i: int) -> Parsed<SpecFunc>
    decreases s.len() - i, 0int,
{
    match def_head_at(s, i) {
        Parsed::Done(p, h) => if i < p <= s.len() {
            map_parsed(
                body_at(k, s, p),
                |b: Seq<SpecStmt>| SpecFunc { name: h.0, ret: h.2, params: h.1, body: b },
            )
        } else {
            Parsed::Mismatch
        },
        _ => Parsed::Mismatch,
    }
}

/// A conditional (`if`) or loop (`while`) whose body is indented deeper than `k`.
#[verifier::opaque]
pub open spec fn block_at(k: int, s: Seq<char>, i: int, keyword: Seq<char>) -> Parsed<(SpecExpr, Seq<SpecStmt>)>
    decreases s.len() - i, 0int,
{
    match head_at(s, i, keyword) {
        Parsed::Done(p, e) => if i < p <= s.len() {
            map_parsed(body_at(k, s, p), |b: Seq<SpecStmt>| (e, b))
        } else {
            Parsed::Mismatch
        },
        Parsed::Mismatch => Parsed::Mismatch,
        Parsed::Overflow => Parsed::Overflow,
    }
}

/// A binding, an assignment or a call, tried in that order.
pub open spec fn simple_stmt_at(s: Seq<char>, i: int) -> Parsed<SpecStmt> {
    or_else(
        map_parsed(bind_at(s, i), |b: SpecBind| SpecStmt::Bind(b)),
        or_else(
            map_parsed(assn_at(s, i), |a: (Seq<char>, SpecExpr)| SpecStmt::Assn(a.0, a.1)),
            map_parsed(call_at(s, i), |c: SpecCall| SpecStmt::Call(c)),
        ),
    )
}

/// A parsed block as a conditional statement or, where `is_loop`, a loop.
pub open spec fn as_stmt(p: Parsed<(SpecExpr, Seq<SpecStmt>)>, is_loop: bool) -> Parsed<SpecStmt> {
    match p {
        Parsed::Done(j, c) => Parsed::Done(
            j,
            if is_loop {
                SpecStmt::Loop(c.0, c.1)
            } else {
                SpecStmt::Cond(c.0, c.1)
            },
        ),
        Parsed::Mismatch => Parsed::Mismatch,
        Parsed::Overflow => Parsed::Overflow,
    }
}

/// A conditional, a loop, or a simple statement, tried in that order.
pub open spec fn block_stmt_at(k: int, s: Seq<char>, i: int) -> Parsed<SpecStmt>
    decreases s.len() - i, 1int,
{
    or_else(
        as_stmt(block_at(k, s, i, seq!['i', 'f']), false),
        or_else(as_stmt(block_at(k, s, i, seq!['w', 'h', 'i', 'l', 'e']), true), simple_stmt_at(s, i)),
    )
}

/// A statement inside a body indented by `k`: `return`, a function
/// definition, a conditional, a loop, a binding, an assignment or a call,
/// tried in that order.
pub open spec fn stmt_at(k: int, s: Seq<char>, i: int) -> Parsed<SpecStmt>
    decreases s.len() - i, 2int,
{
    or_else(
        map_parsed(ret_at(s, i), |e: Option<SpecExpr>| SpecStmt::Ret(e)),
        or_else(
            map_parsed(func_at(k, s, i), |f: SpecFunc| SpecStmt::Func(f)),
            block_stmt_at(k, s, i),
        ),
    )
}

/// A body at `i` of a block whose own indentation is `k`: after blank
/// lines, a first statement indented by some `count > k`, then further
/// statements, each after blank lines and exactly `count` blanks.
pub open spec fn body_at(k: int, s: Seq<char>, i: int) -> Parsed<Seq<SpecStmt>>
    decreases s.len() - i, 3int,
{
    let q = skip_blank(s, i);
    let r = ws(s, q);
    let count = r - q;
    if count >= k + 1 && i < r <= s.len() {
        match stmt_at(count, s, r) {
            Parsed::Done(j, st) => if i < j <= s.len() {
                match body_items(count, s, j) {
                    Parsed::Done(m, sts) => Parsed::Done(m, seq![st] + sts),
                    Parsed::Mismatch => Parsed::Mismatch,
                    Parsed::Overflow => Parsed::Overflow,
                }
            } else {
                Parsed::Mismatch
            },
            Parsed::Mismatch => Parsed::Mismatch,
            Parsed::Overflow => Parsed::Overflow,
        }
    } else {
        Parsed::Mismatch
    }
}

/// The statements after the first one of a body indented by `count`,
/// starting at `j`.
pub open spec fn body_items(count: int, s: Seq<char>, j: int) -> Parsed<Seq<SpecStmt>>
    decreases s.len() - j, 4int,
{
    let q = skip_blank(s, j);
    let p = q + count;
    if ws(s, q) - q >= count && j < p <= s.len() {
        match stmt_at(count, s, p) {
            Parsed::Done(e, st) => if j < e <= s.len() {
                match body_items(count, s, e) {
                    Parsed::Done(m, sts) => Parsed::Done(m, seq![st] + sts),
                    Parsed::Mismatch => Parsed::Mismatch,
                    Parsed::Overflow => Parsed::Overflow,
                }
            } else {
                Parsed::Mismatch
            },
            Parsed::Mismatch => Parsed::Done(j, Seq::empty()),
            Parsed::Overflow => Parsed::Overflow,
        }
    } else {
        Parsed::Done(j, Seq::empty())
    }
}

/// A top-level item: an optional `local` marker followed by blanks, then a
/// binding or a function definition.
pub open spec fn item_at(s: Seq<char>, i: int) -> Parsed<SpecItem> {
    let lb = run_end(s, i + 5, CharClass::Space);
    let local = has_tag(s, i, seq!['l', 'o', 'c', 'a', 'l']) && lb > i + 5;
    let a = if local { lb } else { i };
    or_else(
        map_parsed(bind_at(s, a), |b: SpecBind| SpecItem::Bind(local, b)),
        map_parsed(func_at(0, s, a), |f: SpecFunc| SpecItem::Func(local, f)),
    )
}

/// One line's element of a file: an item, or blanks only.
pub open spec fn file_elem(s: Seq<char>, i: int) -> Parsed<Option<SpecItem>> {
    match item_at(s, i) {
        Parsed::Done(j, it) => Parsed::Done(j, Some(it)),
        Parsed::Mismatch => Parsed::Done(ws(s, i), None),
        Parsed::Overflow => Parsed::Overflow,
    }
}

/// The item of an element, as a sequence of zero or one items.
pub open spec fn elem_items(o: Option<SpecItem>) -> Seq<SpecItem> {
    match o {
        Some(it) => seq![it],
        None => Seq::empty(),
    }
}

/// The elements that follow the first one, each after a line ending, from `i`.
pub open spec fn file_rest(s: Seq<char>, i: int) -> Parsed<Seq<SpecItem>>
    decreases s.len() - i,
{
    let e = line_end(s, i);
    if e > i {
        match file_elem(s, e) {
            Parsed::Done(j, o) => if i < j <= s.len() {
                match file_rest(s, j) {
                    Parsed::Done(m, its) => Parsed::Done(m, elem_items(o) + its),
                    Parsed::Mismatch => Parsed::Mismatch,
                    Parsed::Overflow => Parsed::Overflow,
                }
            } else {
                Parsed::Mismatch
            },
            Parsed::Mismatch => Parsed::Mismatch,
            Parsed::Overflow => Parsed::Overflow,
        }
    } else {
        Parsed::Done(i, Seq::empty())
    }
}

/// A whole file: elements separated by line endings, which must consume
/// all of the input.
pub open spec fn file_at(s: Seq<char>) -> Parsed<Seq<SpecItem>> {
    match file_elem(s, 0) {
        Parsed::Done(j, o) => if 0 <= j <= s.len() {
            match file_rest(s, j) {
                Parsed::Done(m, its) => if m == s.len() {
                    Parsed::Done(m, elem_items(o) + its)
                } else {
                    Parsed::Mismatch
                },
                Parsed::Mismatch => Parsed::Mismatch,
                Parsed::Overflow => Parsed::Overflow,
            }
        } else {
            Parsed::Mismatch
        },
        Parsed::Mismatch => Parsed::Mismatch,
        Parsed::Overflow => Parsed::Overflow,
    }
}

// ---------------------------------------------------------------------
// Every successful parse consumes input.

/// A run never ends before it starts, nor after the input.
pub proof fn lemma_run_end_bounds(s: Seq<char>, i: int, k: CharClass)
    ensures
        0 <= i <= s.len() ==> i <= run_end(s, i, k) <= s.len(),
        !(0 <= i <= s.len()) ==> run_end(s, i, k) == i,
    decreases s.len() - i,
{
    if 0 <= i < s.len() && in_class(s[i], k) {
        lemma_run_end_bounds(s, i + 1, k);
    }
}

/// A line ending ends after its start, within the input.
pub proof fn lemma_line_end_bounds(s: Seq<char>, i: int)
    requires
        0 <= i <= s.len(),
    ensures
        i <= line_end(s, i) <= s.len(),
{
}

/// Blank lines end after their start, within the input.
pub proof fn lemma_skip_blank_bounds(s: Seq<char>, i: int)
    requires
        0 <= i <= s.len(),
    ensures
        i <= skip_blank(s, i) <= s.len(),
    decreases s.len() - i,
{
    let w = ws(s, i);
    lemma_run_end_bounds(s, i, CharClass::Space);
    lemma_line_end_bounds(s, w);
    let e = line_end(s, w);
    if e > w && i < e <= s.len() {
        lemma_skip_blank_bounds(s, e);
    }
}

pub proof fn lemma_num_advances(s: Seq<char>, i: int)
    requires
        0 <= i <= s.len(),
    ensures
        num_at(s, i) matches Parsed::Done(j, _) ==> i < j <= s.len(),
{
    lemma_run_end_bounds(s, i, CharClass::Decimal);
    if i + 2 <= s.len() {
        lemma_run_end_bounds(s, i + 2, CharClass::Binary);
        lemma_run_end_bounds(s, i + 2, CharClass::Octal);
        lemma_run_end_bounds(s, i + 2, CharClass::Hex);
    }
}

pub proof fn lemma_str_advances(s: Seq<char>, i: int)
    requires
        0 <= i <= s.len(),
    ensures
        str_at(s, i) matches Parsed::Done(j, _) ==> i < j <= s.len(),
{
    if i + 1 <= s.len() {
        lemma_run_end_bounds(s, i + 1, CharClass::NotQuote);
    }
}

pub proof fn lemma_arr_advances(s: Seq<char>, i: int)
    requires
        0 <= i <= s.len(),
    ensures
        arr_at(s, i) matches Parsed::Done(j, _) ==> i < j <= s.len(),
{
    if has_tag(s, i, seq!['[']) {
        lemma_run_end_bounds(s, i + 1, CharClass::Space);
        lemma_num_advances(s, ws(s, i + 1));
        if let Parsed::Done(j, _) = num_at(s, ws(s, i + 1)) {
            lemma_run_end_bounds(s, j, CharClass::Space);
        }
    }
}

pub proof fn lemma_name_advances(s: Seq<char>, i: int)
    requires
        0 <= i <= s.len(),
    ensures
        name_at(s, i) matches Parsed::Done(j, _) ==> i < j <= s.len(),
{
    if 0 <= i < s.len() {
        lemma_run_end_bounds(s, i + 1, CharClass::IdentTail);
        lemma_run_end_bounds(s, i, CharClass::Alpha);
        lemma_run_end_bounds(s, i + 1, CharClass::Alpha);
        lemma_run_end_bounds(s, run_end(s, i, CharClass::Alpha), CharClass::IdentTail);
    }
}

pub proof fn lemma_path_rest_bounds(s: Seq<char>, j: int)
    requires
        0 <= j <= s.len(),
    ensures
        j <= path_rest(s, j).0 <= s.len(),
    decreases s.len() - j,
{
    if has_tag(s, j, seq!['.']) {
        if let Parsed::Done(k, _) = name_at(s, j + 1) {
            if j < k <= s.len() {
                lemma_path_rest_bounds(s, k);
            }
        }
    }
}

pub proof fn lemma_path_advances(s: Seq<char>, i: int)
    requires
        0 <= i <= s.len(),
    ensures
        path_at(s, i) matches Parsed::Done(j, _) ==> i < j <= s.len(),
{
    lemma_name_advances(s, i);
    if let Parsed::Done(j, _) = name_at(s, i) {
        lemma_path_rest_bounds(s, j);
    }
}

pub proof fn lemma_prim_lit_advances(s: Seq<char>, i: int)
    requires
        0 <= i <= s.len(),
    ensures
        prim_lit_at(s, i) matches Parsed::Done(j, _) ==> i < j <= s.len(),
{
    lemma_arr_advances(s, i);
    lemma_str_advances(s, i);
    lemma_num_advances(s, i);
}

pub proof fn lemma_sect_advances(s: Seq<char>, i: int)
    requires
        0 <= i <= s.len(),
    ensures
        sect_at(s, i) matches Parsed::Done(j, _) ==> i < j <= s.len(),
    decreases s.len() - i, 2int,
{
    if has_tag(s, i, seq!['(']) {
        let a = ws(s, i + 1);
        lemma_run_end_bounds(s, i + 1, CharClass::Space);
        lemma_expr_advances(s, a);
        if let Parsed::Done(j, _) = expr_at(s, a) {
            lemma_run_end_bounds(s, j, CharClass::Space);
        }
    }
}

pub proof fn lemma_prim_advances(s: Seq<char>, i: int)
    requires
        0 <= i <= s.len(),
    ensures
        prim_at(s, i) matches Parsed::Done(j, _) ==> i < j <= s.len(),
    decreases s.len() - i, 3int,
{
    lemma_sect_advances(s, i);
    lemma_prim_lit_advances(s, i);
    lemma_call_advances(s, i);
    lemma_path_advances(s, i);
}

pub proof fn lemma_expr_tail_advances(s: Seq<char>, i: int, j: int, l: SpecPrim)
    requires
        0 <= i < j <= s.len(),
    ensures
        expr_tail_at(s, i, j, l) matches Parsed::Done(n, _) ==> i < n <= s.len(),
    decreases s.len() - i, 4int,
{
    let k = ws(s, j);
    lemma_run_end_bounds(s, j, CharClass::Space);
    if let Some(op) = op_at(s, k) {
        let m = ws(s, k + op_token(op).len());
        if i < m <= s.len() {
            lemma_prim_advances(s, m);
        }
    }
}

/// An expression that parses ends after its start, within the input.
pub proof fn lemma_expr_advances(s: Seq<char>, i: int)
    requires
        0 <= i <= s.len(),
    ensures
        expr_at(s, i) matches Parsed::Done(j, _) ==> i < j <= s.len(),
    decreases s.len() - i, 5int,
{
    if has_tag(s, i, seq!['!']) && i < ws(s, i + 1) <= s.len() {
        lemma_prim_advances(s, ws(s, i + 1));
    }
    lemma_prim_advances(s, i);
    if let Parsed::Done(j, l) = prim_at(s, i) {
        lemma_expr_tail_advances(s, i, j, l);
    }
}

pub proof fn lemma_call_advances(s: Seq<char>, i: int)
    requires
        0 <= i <= s.len(),
    ensures
        call_at(s, i) matches Parsed::Done(j, _) ==> i < j <= s.len(),
    decreases s.len() - i, 1int,
{
    lemma_path_advances(s, i);
    if let Parsed::Done(j, _) = path_at(s, i) {
        let k = ws(s, j);
        lemma_run_end_bounds(s, j, CharClass::Space);
        if has_tag(s, k, seq!['(']) && i < k + 1 {
            lemma_args_advances(s, k + 1);
        }
    }
}

pub proof fn lemma_arg_advances(s: Seq<char>, a: int)
    requires
        0 <= a <= s.len(),
    ensures
        arg_at(s, a) matches Parsed::Done(j, _) ==> a < j <= s.len(),
    decreases s.len() - a, 6int,
{
    let b = ws(s, a);
    lemma_run_end_bounds(s, a, CharClass::Space);
    lemma_expr_advances(s, b);
    if let Parsed::Done(c, _) = expr_at(s, b) {
        lemma_run_end_bounds(s, c, CharClass::Space);
    }
}

pub proof fn lemma_args_advances(s: Seq<char>, a: int)
    requires
        0 <= a <= s.len(),
    ensures
        args_at(s, a) matches Parsed::Done(j, _) ==> a <= j <= s.len(),
    decreases s.len() - a, 7int,
{
    lemma_arg_advances(s, a);
    if let Parsed::Done(c, _) = arg_at(s, a) {
        if a < c <= s.len() {
            lemma_args_rest_advances(s, c);
        }
    }
}

pub proof fn lemma_args_rest_advances(s: Seq<char>, c: int)
    requires
        0 <= c <= s.len(),
    ensures
        args_rest(s, c) matches Parsed::Done(j, _) ==> c <= j <= s.len(),
    decreases s.len() - c, 8int,
{
    if has_tag(s, c, seq![',']) {
        lemma_arg_advances(s, c + 1);
        if let Parsed::Done(d, _) = arg_at(s, c + 1) {
            if c < d <= s.len() {
                lemma_args_rest_advances(s, d);
            }
        }
    }
}

pub proof fn lemma_ret_advances(s: Seq<char>, i: int)
    requires
        0 <= i <= s.len(),
    ensures
        ret_at(s, i) matches Parsed::Done(j, _) ==> i < j <= s.len(),
{
    if has_tag(s, i, seq!['r', 'e', 't', 'u', 'r', 'n']) {
        lemma_run_end_bounds(s, i + 6, CharClass::Space);
        lemma_expr_advances(s, ws(s, i + 6));
    }
}

pub proof fn lemma_anno_advances(s: Seq<char>, d: int)
    requires
        0 <= d <= s.len(),
    ensures
        anno_at(s, d) matches Parsed::Done(j, _) ==> d < j <= s.len(),
{
    if has_tag(s, d, seq![':']) {
        lemma_run_end_bounds(s, d + 1, CharClass::Space);
        lemma_path_advances(s, ws(s, d + 1));
        if let Parsed::Done(e, _) = path_at(s, ws(s, d + 1)) {
            lemma_run_end_bounds(s, e, CharClass::Space);
        }
    }
}

pub proof fn lemma_bind_advances(s: Seq<char>, i: int)
    requires
        0 <= i <= s.len(),
    ensures
        bind_at(s, i) matches Parsed::Done(j, _) ==> i < j <= s.len(),
{
    if has_tag(s, i, seq!['l', 'e', 't']) || has_tag(s, i, seq!['v', 'a', 'r']) {
        let b = run_end(s, i + 3, CharClass::Space);
        lemma_run_end_bounds(s, i + 3, CharClass::Space);
        lemma_name_advances(s, b);
        if let Parsed::Done(c, _) = name_at(s, b) {
            lemma_run_end_bounds(s, c, CharClass::Space);
            lemma_anno_advances(s, ws(s, c));
            if let Parsed::Done(e, _) = anno_at(s, ws(s, c)) {
                lemma_run_end_bounds(s, e, CharClass::Space);
                lemma_expr_advances(s, ws(s, e));
            }
        }
    }
}

pub proof fn lemma_assn_advances(s: Seq<char>, i: int)
    requires
        0 <= i <= s.len(),
    ensures
        assn_at(s, i) matches Parsed::Done(j, _) ==> i < j <= s.len(),
{
    lemma_name_advances(s, i);
    if let Parsed::Done(c, _) = name_at(s, i) {
        let d = ws(s, c);
        lemma_run_end_bounds(s, c, CharClass::Space);
        if has_tag(s, d, seq!['=']) {
            lemma_run_end_bounds(s, d + 1, CharClass::Space);
            lemma_expr_advances(s, ws(s, d + 1));
        }
    }
}

pub proof fn lemma_param_advances(s: Seq<char>, a: int)
    requires
        0 <= a <= s.len(),
    ensures
        param_at(s, a) matches Parsed::Done(j, _) ==> a < j <= s.len(),
{
    lemma_run_end_bounds(s, a, CharClass::Space);
    lemma_name_advances(s, ws(s, a));
    if let Parsed::Done(c, _) = name_at(s, ws(s, a)) {
        let d = ws(s, c);
        lemma_run_end_bounds(s, c, CharClass::Space);
        if has_tag(s, d, seq![':']) {
            lemma_run_end_bounds(s, d + 1, CharClass::Space);
            lemma_path_advances(s, ws(s, d + 1));
            if let Parsed::Done(e, _) = path_at(s, ws(s, d + 1)) {
                lemma_run_end_bounds(s, e, CharClass::Space);
            }
        }
    }
}

pub proof fn lemma_params_rest_bounds(s: Seq<char>, c: int)
    requires
        0 <= c <= s.len(),
    ensures
        c <= params_rest(s, c).0 <= s.len(),
    decreases s.len() - c,
{
    if has_tag(s, c, seq![',']) {
        lemma_param_advances(s, c + 1);
        if let Parsed::Done(d, _) = param_at(s, c + 1) {
            if c < d <= s.len() {
                lemma_params_rest_bounds(s, d);
            }
        }
    }
}

pub proof fn lemma_params_bounds(s: Seq<char>, a: int)
    requires
        0 <= a <= s.len(),
    ensures
        a <= params_at(s, a).0 <= s.len(),
{
    lemma_param_advances(s, a);
    if let Parsed::Done(c, _) = param_at(s, a) {
        lemma_params_rest_bounds(s, c);
    }
}

pub proof fn lemma_head_advances(s: Seq<char>, i: int, keyword: Seq<char>)
    requires
        0 <= i <= s.len(),
    ensures
        head_at(s, i, keyword) matches Parsed::Done(j, _) ==> i < j <= s.len(),
{
    let a = i + keyword.len();
    if has_tag(s, i, keyword) {
        lemma_run_end_bounds(s, a, CharClass::Space);
        let b = run_end(s, a, CharClass::Space);
        lemma_expr_advances(s, b);
        if let Parsed::Done(c, _) = expr_at(s, b) {
            let d = ws(s, c);
            lemma_run_end_bounds(s, c, CharClass::Space);
            if has_tag(s, d, seq![':']) {
                lemma_line_end_bounds(s, d + 1);
            }
        }
    }
}

pub proof fn lemma_def_head_advances(s: Seq<char>, i: int)
    requires
        0 <= i <= s.len(),
    ensures
        def_head_at(s, i) matches Parsed::Done(j, _) ==> i < j <= s.len(),
{
    if has_tag(s, i, seq!['d', 'e', 'f']) {
        lemma_run_end_bounds(s, i + 3, CharClass::Space);
        let b = run_end(s, i + 3, CharClass::Space);
        lemma_name_advances(s, b);
        if let Parsed::Done(c, _) = name_at(s, b) {
            let d = ws(s, c);
            lemma_run_end_bounds(s, c, CharClass::Space);
            if has_tag(s, d, seq!['(']) {
                lemma_params_bounds(s, d + 1);
                let ps = params_at(s, d + 1);
                if has_tag(s, ps.0, seq![')']) {
                    lemma_run_end_bounds(s, ps.0 + 1, CharClass::Space);
                    let f = ws(s, ps.0 + 1);
                    if has_tag(s, f, seq!['-', '>']) {
                        lemma_run_end_bounds(s, f + 2, CharClass::Space);
                        lemma_path_advances(s, ws(s, f + 2));
                        if let Parsed::Done(g, _) = path_at(s, ws(s, f + 2)) {
                            lemma_run_end_bounds(s, g, CharClass::Space);
                            let h = ws(s, g);
                            if has_tag(s, h, seq![':']) {
                                lemma_line_end_bounds(s, h + 1);
                            }
                        }
                    }
                }
            }
        }
    }
}

pub proof fn lemma_func_advances(k: int, s: Seq<char>, i: int)
    requires
        0 <= i <= s.len(),
    ensures
        func_at(k, s, i) matches Parsed::Done(j, _) ==> i < j <= s.len(),
    decreases s.len() - i, 0int,
{
    lemma_def_head_advances(s, i);
    if let Parsed::Done(p, _) = def_head_at(s, i) {
        if i < p <= s.len() {
            lemma_body_advances(k, s, p);
        }
    }
}

pub proof fn lemma_block_advances(k: int, s: Seq<char>, i: int, keyword: Seq<char>)
    requires
        0 <= i <= s.len(),
    ensures
        block_at(k, s, i, keyword) matches Parsed::Done(j, _) ==> i < j <= s.len(),
    decreases s.len() - i, 0int,
{
    reveal_with_fuel(block_at, 1);
    lemma_head_advances(s, i, keyword);
    if let Parsed::Done(p, _) = head_at(s, i, keyword) {
        if i < p <= s.len() {
            lemma_body_advances(k, s, p);
        }
    }
}

pub proof fn lemma_simple_stmt_advances(s: Seq<char>, i: int)
    requires
        0 <= i <= s.len(),
    ensures
        simple_stmt_at(s, i) matches Parsed::Done(j, _) ==> i < j <= s.len(),
{
    lemma_bind_advances(s, i);
    lemma_assn_advances(s, i);
    lemma_call_advances(s, i);
}

#[verifier::spinoff_prover]
#[verifier::rlimit(50)]
pub proof fn lemma_block_stmt_advances(k: int, s: Seq<char>, i: int)
    requires
        0 <= i <= s.len(),
    ensures
        block_stmt_at(k, s, i) matches Parsed::Done(j, _) ==> i < j <= s.len(),
    decreases s.len() - i, 1int,
{
    lemma_block_advances(k, s, i, seq!['i', 'f']);
    lemma_block_advances(k, s, i, seq!['w', 'h', 'i', 'l', 'e']);
    lemma_simple_stmt_advances(s, i);
}

/// A statement that parses ends after its start, within the input.
pub proof fn lemma_stmt_advances(k: int, s: Seq<char>, i: int)
    requires
        0 <= i <= s.len(),
    ensures
        stmt_at(k, s, i) matches Parsed::Done(j, _) ==> i < j <= s.len(),
    decreases s.len() - i, 2int,
{
    lemma_ret_advances(s, i);
    lemma_func_advances(k, s, i);
    lemma_block_stmt_advances(k, s, i);
}

pub proof fn lemma_body_advances(k: int, s: Seq<char>, i: int)
    requires
        0 <= i <= s.len(),
    ensures
        body_at(k, s, i) matches Parsed::Done(j, _) ==> i < j <= s.len(),
    decreases s.len() - i, 3int,
{
    lemma_skip_blank_bounds(s, i);
    let q = skip_blank(s, i);
    lemma_run_end_bounds(s, q, CharClass::Space);
    let r = ws(s, q);
    let count = r - q;
    if count >= k + 1 && i < r <= s.len() {
        lemma_stmt_advances(count, s, r);
        if let Parsed::Done(j, _) = stmt_at(count, s, r) {
            if i < j <= s.len() {
                lemma_body_items_bounds(count, s, j);
            }
        }
    }
}

pub proof fn lemma_body_items_bounds(count: int, s: Seq<char>, j: int)
    requires
        0 <= j <= s.len(),
    ensures
        body_items(count, s, j) matches Parsed::Done(m, _) ==> j <= m <= s.len(),
    decreases s.len() - j, 4int,
{
    lemma_skip_blank_bounds(s, j);
    let q = skip_blank(s, j);
    let p = q + count;
    if ws(s, q) - q >= count && j < p <= s.len() {
        lemma_stmt_advances(count, s, p);
        if let Parsed::Done(e, _) = stmt_at(count, s, p) {
            if j < e <= s.len() {
                lemma_body_items_bounds(count, s, e);
            }
        }
    }
}

/// An item that parses ends after its start, within the input.
pub proof fn lemma_item_advances(s: Seq<char>, i: int)
    requires
        0 <= i <= s.len(),
    ensures
        item_at(s, i) matches Parsed::Done(j, _) ==> i < j <= s.len(),
{
    if i + 5 <= s.len() {
        lemma_run_end_bounds(s, i + 5, CharClass::Space);
    }
    let lb = run_end(s, i + 5, CharClass::Space);
    let local = has_tag(s, i, seq!['l', 'o', 'c', 'a', 'l']) && lb > i + 5;
    let a = if local { lb } else { i };
    lemma_bind_advances(s, a);
    lemma_func_advances(0, s, a);
}

/// A file that parses is consumed entirely; a line's element never ends
/// before it starts.
pub proof fn lemma_file_consumes_all(s: Seq<char>)
    ensures
        file_at(s) matches Parsed::Done(m, _) ==> m == s.len(),
        file_elem(s, 0) matches Parsed::Done(j, _) ==> 0 <= j <= s.len(),
{
    lemma_item_advances(s, 0);
    lemma_run_end_bounds(s, 0, CharClass::Space);
}

} // verus!
