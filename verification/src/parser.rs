//! The parser. Each function parses one syntactic category at a position of
//! a character slice and returns the position just past what it consumed
//! with the syntax node, exactly as the corresponding function of
//! `grammar` says.
use vstd::prelude::*;
use crate::grammar::{
    anno_at, arg_at, args_at, args_rest, arr_at, as_stmt, assn_at, bind_at, block_at, block_stmt_at, body_at,
    body_items, call_at, def_head_at, elem_items, expr_at, expr_tail_at, file_at, file_elem,
    file_rest, func_at, has_tag, head_at, head_rest_at, in_class, item_at, literal, make_binary, name_at, num_at,
    op_at, op_token, or_else, param_at, params_at, params_rest, path_at, path_rest, prim_at,
    prim_lit_at, ret_at, sect_at, simple_stmt_at, stmt_at, str_at, BinOp, CharClass, Parsed,
};
use crate::lexer::{
    chars_of, class_has, digits, lemma_digits_nonneg, scan, scan_line_end, skip_blank_lines, skip_ws,
    string_of, tag1, tag2, tag3, tag4, tag5, tag6,
};
use crate::syntax::{
    exprs_view, params_view, stmts_view, Arr, Assn, Bind, Body, Call, Cond, Expr, File, Func,
    Item, Loop, Name, Num, Order, Path, Prim, SpecExpr, SpecItem, SpecPath, SpecStmt, Stmt,
    Str,
};

verus! {

/// A parser state: the indentation of the block being parsed.
#[derive(Debug, Clone, Copy, PartialEq, Eq, Hash, Default)]
pub struct Parser(pub usize);

/// Why parsing failed.
#[derive(Debug, Clone, Copy, PartialEq, Eq)]
pub enum ParseError {
    /// The input does not match the grammar.
    Mismatch,
    /// A numeric literal does not fit in `isize`.
    Overflow,
}

/// Whether an executable parse result is the outcome `p` of the grammar.
pub open spec fn agrees<T: View>(r: Result<(usize, T), ParseError>, p: Parsed<T::V>) -> bool {
    match r {
        Ok((j, v)) => p == Parsed::Done(j as int, v@),
        Err(ParseError::Mismatch) => p is Mismatch,
        Err(ParseError::Overflow) => p is Overflow,
    }
}

/// A successful parse from `i` ends after `i` and within the input.
pub open spec fn advances<T>(r: Result<(usize, T), ParseError>, i: int, n: int) -> bool {
    r matches Ok((j, _)) ==> i < j <= n
}

/// The model of a list of identifiers.
pub open spec fn names_view(v: Seq<Name>) -> SpecPath {
    Seq::new(v.len(), |k: int| v[k].0@)
}

/// The model of an optional node.
pub open spec fn opt_view<T: View>(o: Option<T>) -> Option<T::V> {
    match o {
        Some(x) => Some(x@),
        None => None,
    }
}

/// Whether an executable parse result with an optional node is the outcome `p`.
pub open spec fn agrees_opt<T: View>(r: Result<(usize, Option<T>), ParseError>, p: Parsed<Option<T::V>>) -> bool {
    match r {
        Ok((j, v)) => p == Parsed::Done(j as int, opt_view(v)),
        Err(ParseError::Mismatch) => p is Mismatch,
        Err(ParseError::Overflow) => p is Overflow,
    }
}

/// The models of the items of a list.
pub open spec fn items_view(v: Seq<Item>) -> Seq<SpecItem> {
    Seq::new(v.len(), |k: int| v[k]@)
}

/// The outcome `p` with `prefix` put before the list it yields.
pub open spec fn prepend_parsed<X>(prefix: Seq<X>, p: Parsed<Seq<X>>) -> Parsed<Seq<X>> {
    match p {
        Parsed::Done(f, xs) => Parsed::Done(f, prefix + xs),
        Parsed::Mismatch => Parsed::Mismatch,
        Parsed::Overflow => Parsed::Overflow,
    }
}

proof fn lemma_prepend_assoc<X>(a: Seq<X>, b: Seq<X>, p: Parsed<Seq<X>>)
    ensures
        prepend_parsed(a, prepend_parsed(b, p)) == prepend_parsed(a + b, p),
{
    match p {
        Parsed::Done(f, xs) => {
            assert(a + (b + xs) =~= (a + b) + xs);
        },
        _ => {},
    }
}

/// The operator at `k`, tried in the order of the grammar.
fn op(s: &[char], k: usize) -> (r: Option<BinOp>)
    requires
        k <= s@.len(),
    ensures
        r == op_at(s@, k as int),
{
    if tag1(s, k, '+') {
        Some(BinOp::Add)
    } else if tag1(s, k, '-') {
        Some(BinOp::Sub)
    } else if tag1(s, k, '*') {
        Some(BinOp::Mul)
    } else if tag2(s, k, '=', '=') {
        Some(BinOp::Eq)
    } else if tag2(s, k, '!', '=') {
        Some(BinOp::Ne)
    } else if tag2(s, k, '>', '=') {
        Some(BinOp::Ge)
    } else if tag2(s, k, '<', '=') {
        Some(BinOp::Le)
    } else if tag1(s, k, '>') {
        Some(BinOp::Gt)
    } else if tag1(s, k, '<') {
        Some(BinOp::Lt)
    } else if tag2(s, k, '&', '&') {
        Some(BinOp::And)
    } else if tag2(s, k, '|', '|') {
        Some(BinOp::Orr)
    } else if tag1(s, k, '&') {
        Some(BinOp::BitAnd)
    } else if tag1(s, k, '|') {
        Some(BinOp::BitOrr)
    } else {
        None
    }
}

/// The number of characters that spell `op`.
fn op_len(op: BinOp) -> (n: usize)
    ensures
        n == op_token(op).len(),
{
    match op {
        BinOp::Add | BinOp::Sub | BinOp::Mul | BinOp::Gt | BinOp::Lt | BinOp::BitAnd
        | BinOp::BitOrr => 1,
        _ => 2,
    }
}

/// The expression that `op` builds from `l` and `r`.
fn build_binary(op: BinOp, l: Prim, r: Prim) -> (e: Expr)
    ensures
        e@ == make_binary(op, l@, r@),
{
    match op {
        BinOp::Add => Expr::Add(l, r),
        BinOp::Sub => Expr::Sub(l, r),
        BinOp::Mul => Expr::Mul(l, r),
        BinOp::And => Expr::And(l, r),
        BinOp::Orr => Expr::Orr(l, r),
        BinOp::BitAnd => Expr::BitAnd(l, r),
        BinOp::BitOrr => Expr::BitOrr(l, r),
        BinOp::Gt => Expr::Ord(false, Order::Greater, l, r),
        BinOp::Lt => Expr::Ord(false, Order::Less, l, r),
        BinOp::Eq => Expr::Ord(false, Order::Equal, l, r),
        BinOp::Ge => Expr::Ord(true, Order::Less, l, r),
        BinOp::Le => Expr::Ord(true, Order::Greater, l, r),
        BinOp::Ne => Expr::Ord(true, Order::Equal, l, r),
    }
}

impl Parser {
    /// Whether `c` is a blank: a space or a tab.
    pub fn space(c: char) -> (b: bool)
        ensures
            b == in_class(c, CharClass::Space),
    {
        c == ' ' || c == '\t'
    }

    /// The literal made of the digits from `a` to `b` in base `radix`.
    fn lit(s: &[char], a: usize, b: usize, radix: u32) -> (r: Result<(usize, Num), ParseError>)
        requires
            a < b <= s@.len(),
            2 <= radix <= 16,
        ensures
            agrees(r, literal(s@, a as int, b as int, radix as int)),
            r matches Ok((j, n)) ==> j == b && n.0 >= 0,
    {
        match digits(s, a, b, radix) {
            Some(v) => {
                proof {
                    lemma_digits_nonneg(s@, a as int, b as int, radix as int);
                }
                Ok((b, Num(v)))
            },
            None => Err(ParseError::Overflow),
        }
    }

    /// A numeric literal.
    pub fn num(s: &[char], i: usize) -> (r: Result<(usize, Num), ParseError>)
        requires
            i <= s@.len(),
        ensures
            agrees(r, num_at(s@, i as int)),
            advances(r, i as int, s@.len() as int),
            r matches Ok((_, n)) ==> n.0 >= 0,
    {
        if tag2(s, i, '0', 'b') {
            let e = scan(s, i + 2, CharClass::Binary);
            if e > i + 2 {
                return Self::lit(s, i + 2, e, 2);
            }
        }
        if tag2(s, i, '0', 'o') {
            let e = scan(s, i + 2, CharClass::Octal);
            if e > i + 2 {
                return Self::lit(s, i + 2, e, 8);
            }
        }
        if tag2(s, i, '0', 'x') {
            let e = scan(s, i + 2, CharClass::Hex);
            if e > i + 2 {
                return Self::lit(s, i + 2, e, 16);
            }
        }
        let d = scan(s, i, CharClass::Decimal);
        if d > i {
            return Self::lit(s, i, d, 10);
        }
        Err(ParseError::Mismatch)
    }

    /// A string literal.
    pub fn str(s: &[char], i: usize) -> (r: Result<(usize, Str), ParseError>)
        requires
            i <= s@.len(),
        ensures
            agrees(r, str_at(s@, i as int)),
            advances(r, i as int, s@.len() as int),
    {
        if tag1(s, i, '"') {
            let e = scan(s, i + 1, CharClass::NotQuote);
            if e > i + 1 && tag1(s, e, '"') {
                return Ok((e + 1, Str(string_of(s, i + 1, e))));
            }
        }
        Err(ParseError::Mismatch)
    }

    /// An array literal.
    pub fn arr(s: &[char], i: usize) -> (r: Result<(usize, Arr), ParseError>)
        requires
            i <= s@.len(),
        ensures
            agrees(r, arr_at(s@, i as int)),
            advances(r, i as int, s@.len() as int),
    {
        if !tag1(s, i, '[') {
            return Err(ParseError::Mismatch);
        }
        let a = skip_ws(s, i + 1);
        match Self::num(s, a) {
            Ok((j, n)) => {
                let k = skip_ws(s, j);
                if tag1(s, k, ']') {
                    Ok((k + 1, Arr(n.0 as usize)))
                } else {
                    Err(ParseError::Mismatch)
                }
            },
            Err(e) => Err(e),
        }
    }

    /// An identifier.
    pub fn name(s: &[char], i: usize) -> (r: Result<(usize, Name), ParseError>)
        requires
            i <= s@.len(),
        ensures
            agrees(r, name_at(s@, i as int)),
            advances(r, i as int, s@.len() as int),
    {
        let n = s.len();
        if i < n && s[i] == '_' {
            let e = scan(s, i + 1, CharClass::IdentTail);
            Ok((e, Name(string_of(s, i, e))))
        } else if i < n && class_has(s[i], CharClass::Alpha) {
            let p = scan(s, i + 1, CharClass::Alpha);
            assert(p == crate::grammar::run_end(s@, i as int, CharClass::Alpha));
            let e = scan(s, p, CharClass::IdentTail);
            Ok((e, Name(string_of(s, i, e))))
        } else {
            Err(ParseError::Mismatch)
        }
    }

    /// A dotted path.
    pub fn path(s: &[char], i: usize) -> (r: Result<(usize, Path), ParseError>)
        requires
            i <= s@.len(),
        ensures
            agrees(r, path_at(s@, i as int)),
            advances(r, i as int, s@.len() as int),
    {
        let (j0, first) = match Self::name(s, i) {
            Ok(x) => x,
            Err(e) => return Err(e),
        };
        let ghost head = first@;
        let mut names: Vec<Name> = Vec::new();
        names.push(first);
        assert(names_view(names@) =~= seq![head]);
        let mut j = j0;
        loop
            invariant
                i < j0 <= j <= s@.len(),
                path_rest(s@, j0 as int).0 == path_rest(s@, j as int).0,
                seq![head] + path_rest(s@, j0 as int).1 == names_view(names@) + path_rest(
                    s@,
                    j as int,
                ).1,
            ensures
                path_rest(s@, j as int) == (j as int, Seq::<Seq<char>>::empty()),
            decreases s@.len() - j,
        {
            if !tag1(s, j, '.') {
                break;
            }
            match Self::name(s, j + 1) {
                Ok((k, nm)) => {
                    let ghost old_names = names@;
                    let ghost x = nm@;
                    names.push(nm);
                    assert(names_view(names@) =~= names_view(old_names).push(x));
                    assert(names_view(old_names) + path_rest(s@, j as int).1 =~= names_view(
                        names@,
                    ) + path_rest(s@, k as int).1);
                    j = k;
                },
                Err(_) => {
                    break;
                },
            }
        }
        assert(names_view(names@) + path_rest(s@, j as int).1 =~= names_view(names@));
        let p = Path(names);
        assert(p@ =~= names_view(p.0@));
        Ok((j, p))
    }

    /// `true`, `false`, or an array, string or numeric literal.
    fn prim_lit(s: &[char], i: usize) -> (r: Result<(usize, Prim), ParseError>)
        requires
            i <= s@.len(),
        ensures
            agrees(r, prim_lit_at(s@, i as int)),
            advances(r, i as int, s@.len() as int),
    {
        if tag4(s, i, 't', 'r', 'u', 'e') {
            return Ok((i + 4, Prim::Bool(true)));
        }
        if tag5(s, i, 'f', 'a', 'l', 's', 'e') {
            return Ok((i + 5, Prim::Bool(false)));
        }
        match Self::arr(s, i) {
            Ok((j, a)) => {
                return Ok((j, Prim::Arr(a)));
            },
            Err(ParseError::Overflow) => {
                return Err(ParseError::Overflow);
            },
            Err(ParseError::Mismatch) => {},
        }
        match Self::str(s, i) {
            Ok((j, t)) => {
                return Ok((j, Prim::Str(t)));
            },
            Err(_) => {},
        }
        match Self::num(s, i) {
            Ok((j, n)) => Ok((j, Prim::Num(n))),
            Err(e) => Err(e),
        }
    }

    /// A parenthesised expression.
    fn sect(s: &[char], i: usize) -> (r: Result<(usize, Prim), ParseError>)
        requires
            i <= s@.len(),
        ensures
            agrees(r, sect_at(s@, i as int)),
            advances(r, i as int, s@.len() as int),
        decreases s@.len() - i, 2int,
    {
        if !tag1(s, i, '(') {
            return Err(ParseError::Mismatch);
        }
        let a = skip_ws(s, i + 1);
        match Self::expr(s, a) {
            Ok((j, e)) => {
                let k = skip_ws(s, j);
                if tag1(s, k, ')') {
                    Ok((k + 1, Prim::Sect(Box::new(e))))
                } else {
                    Err(ParseError::Mismatch)
                }
            },
            Err(e) => Err(e),
        }
    }

    /// A primary expression.
    pub fn prim(s: &[char], i: usize) -> (r: Result<(usize, Prim), ParseError>)
        requires
            i <= s@.len(),
        ensures
            agrees(r, prim_at(s@, i as int)),
            advances(r, i as int, s@.len() as int),
        decreases s@.len() - i, 3int,
    {
        match Self::sect(s, i) {
            Err(ParseError::Mismatch) => {},
            r => {
                return r;
            },
        }
        match Self::prim_lit(s, i) {
            Err(ParseError::Mismatch) => {},
            r => {
                return r;
            },
        }
        match Self::call(s, i) {
            Ok((j, c)) => {
                return Ok((j, Prim::Call(c)));
            },
            Err(ParseError::Overflow) => {
                return Err(ParseError::Overflow);
            },
            Err(ParseError::Mismatch) => {},
        }
        match Self::path(s, i) {
            Ok((j, p)) => Ok((j, Prim::Path(p))),
            Err(e) => Err(e),
        }
    }

    /// The rest of an expression whose first primary `l` ends at `j`.
    fn expr_tail(s: &[char], i: usize, j: usize, l: Prim) -> (r: Result<(usize, Expr), ParseError>)
        requires
            i < j <= s@.len(),
        ensures
            agrees(r, expr_tail_at(s@, i as int, j as int, l@)),
            advances(r, i as int, s@.len() as int),
        decreases s@.len() - i, 4int,
    {
        let k = skip_ws(s, j);
        match op(s, k) {
            Some(o) => {
                let m = skip_ws(s, k + op_len(o));
                match Self::prim(s, m) {
                    Ok((n, rhs)) => Ok((n, build_binary(o, l, rhs))),
                    Err(ParseError::Mismatch) => Ok((j, Expr::Prim(l))),
                    Err(ParseError::Overflow) => Err(ParseError::Overflow),
                }
            },
            None => Ok((j, Expr::Prim(l))),
        }
    }

    /// An expression.
    pub fn expr(s: &[char], i: usize) -> (r: Result<(usize, Expr), ParseError>)
        requires
            i <= s@.len(),
        ensures
            agrees(r, expr_at(s@, i as int)),
            advances(r, i as int, s@.len() as int),
        decreases s@.len() - i, 5int,
    {
        if tag1(s, i, '!') {
            let a = skip_ws(s, i + 1);
            match Self::prim(s, a) {
                Ok((j, p)) => {
                    return Ok((j, Expr::Comp(p)));
                },
                Err(ParseError::Overflow) => {
                    return Err(ParseError::Overflow);
                },
                Err(ParseError::Mismatch) => {},
            }
        }
        match Self::prim(s, i) {
            Ok((j, l)) => Self::expr_tail(s, i, j, l),
            Err(e) => Err(e),
        }
    }

    /// A call expression.
    pub fn call(s: &[char], i: usize) -> (r: Result<(usize, Call), ParseError>)
        requires
            i <= s@.len(),
        ensures
            agrees(r, call_at(s@, i as int)),
            advances(r, i as int, s@.len() as int),
        decreases s@.len() - i, 1int,
    {
        let (j, p) = match Self::path(s, i) {
            Ok(x) => x,
            Err(_) => {
                return Err(ParseError::Mismatch);
            },
        };
        let k = skip_ws(s, j);
        if !tag1(s, k, '(') {
            return Err(ParseError::Mismatch);
        }
        match Self::args(s, k + 1) {
            Ok((m, a)) => {
                if tag1(s, m, ')') {
                    Ok((m + 1, Call(p, a)))
                } else {
                    Err(ParseError::Mismatch)
                }
            },
            Err(e) => Err(e),
        }
    }

    /// One argument with the blanks around it.
    fn arg(s: &[char], a: usize) -> (r: Result<(usize, Expr), ParseError>)
        requires
            a <= s@.len(),
        ensures
            agrees(r, arg_at(s@, a as int)),
            advances(r, a as int, s@.len() as int),
        decreases s@.len() - a, 6int,
    {
        let b = skip_ws(s, a);
        match Self::expr(s, b) {
            Ok((c, e)) => Ok((skip_ws(s, c), e)),
            Err(e) => Err(e),
        }
    }

    /// A comma-separated argument list.
    fn args(s: &[char], a: usize) -> (r: Result<(usize, Vec<Expr>), ParseError>)
        requires
            a <= s@.len(),
        ensures
            match r {
                Ok((m, es)) => args_at(s@, a as int) == Parsed::Done(m as int, exprs_view(es@))
                    && a <= m <= s@.len(),
                Err(ParseError::Mismatch) => args_at(s@, a as int) is Mismatch,
                Err(ParseError::Overflow) => args_at(s@, a as int) is Overflow,
            },
        decreases s@.len() - a, 7int,
    {
        let (c0, e0) = match Self::arg(s, a) {
            Ok(x) => x,
            Err(ParseError::Mismatch) => {
                let none: Vec<Expr> = Vec::new();
                assert(exprs_view(none@) =~= Seq::<SpecExpr>::empty());
                return Ok((a, none));
            },
            Err(ParseError::Overflow) => {
                return Err(ParseError::Overflow);
            },
        };
        let ghost v0 = e0@;
        let mut es: Vec<Expr> = Vec::new();
        es.push(e0);
        assert(exprs_view(es@) =~= seq![v0]);
        let mut c = c0;
        loop
            invariant
                a < c0 <= c <= s@.len(),
                args_at(s@, a as int) == prepend_parsed(seq![v0], args_rest(s@, c0 as int)),
                prepend_parsed(seq![v0], args_rest(s@, c0 as int)) == prepend_parsed(
                    exprs_view(es@),
                    args_rest(s@, c as int),
                ),
            ensures
                args_rest(s@, c as int) == Parsed::Done(c as int, Seq::<SpecExpr>::empty()),
            decreases s@.len() - c,
        {
            if !tag1(s, c, ',') {
                break;
            }
            match Self::arg(s, c + 1) {
                Ok((d, e)) => {
                    let ghost old_es = es@;
                    let ghost x = e@;
                    es.push(e);
                    assert(exprs_view(es@) =~= exprs_view(old_es) + seq![x]);
                    proof {
                        lemma_prepend_assoc(exprs_view(old_es), seq![x], args_rest(s@, d as int));
                    }
                    c = d;
                },
                Err(ParseError::Mismatch) => {
                    break;
                },
                Err(ParseError::Overflow) => {
                    return Err(ParseError::Overflow);
                },
            }
        }
        assert(exprs_view(es@) + Seq::<SpecExpr>::empty() =~= exprs_view(es@));
        Ok((c, es))
    }
}

impl Parser {
    /// A `return` statement's optional expression.
    fn ret(s: &[char], i: usize) -> (r: Result<(usize, Option<Expr>), ParseError>)
        requires
            i <= s@.len(),
        ensures
            agrees_opt(r, ret_at(s@, i as int)),
            advances(r, i as int, s@.len() as int),
    {
        if !tag6(s, i, 'r', 'e', 't', 'u', 'r', 'n') {
            return Err(ParseError::Mismatch);
        }
        match Self::expr(s, skip_ws(s, i + 6)) {
            Ok((j, e)) => Ok((j, Some(e))),
            Err(ParseError::Mismatch) => Ok((i + 6, None)),
            Err(ParseError::Overflow) => Err(ParseError::Overflow),
        }
    }

    /// The annotation of a binding: `: Path =` or `:=`.
    fn anno(s: &[char], d: usize) -> (r: Result<(usize, Option<Path>), ParseError>)
        requires
            d <= s@.len(),
        ensures
            agrees_opt(r, anno_at(s@, d as int)),
            advances(r, d as int, s@.len() as int),
    {
        if tag1(s, d, ':') {
            match Self::path(s, skip_ws(s, d + 1)) {
                Ok((e, p)) => {
                    let f = skip_ws(s, e);
                    if tag1(s, f, '=') {
                        return Ok((f + 1, Some(p)));
                    }
                },
                Err(_) => {},
            }
        }
        if tag2(s, d, ':', '=') {
            Ok((d + 2, None))
        } else {
            Err(ParseError::Mismatch)
        }
    }

    /// A binding: `let` or `var`, a name, an annotation, and an expression.
    pub fn bind(s: &[char], i: usize) -> (r: Result<(usize, Bind), ParseError>)
        requires
            i <= s@.len(),
        ensures
            agrees(r, bind_at(s@, i as int)),
            advances(r, i as int, s@.len() as int),
    {
        let mutable = if tag3(s, i, 'l', 'e', 't') {
            false
        } else if tag3(s, i, 'v', 'a', 'r') {
            true
        } else {
            return Err(ParseError::Mismatch);
        };
        let b = scan(s, i + 3, CharClass::Space);
        if b == i + 3 {
            return Err(ParseError::Mismatch);
        }
        let (c, n) = match Self::name(s, b) {
            Ok(x) => x,
            Err(_) => {
                return Err(ParseError::Mismatch);
            },
        };
        let (e, anno) = match Self::anno(s, skip_ws(s, c)) {
            Ok(x) => x,
            Err(_) => {
                return Err(ParseError::Mismatch);
            },
        };
        match Self::expr(s, skip_ws(s, e)) {
            Ok((f, x)) => if mutable {
                Ok((f, Bind::Var(n, anno, x)))
            } else {
                Ok((f, Bind::Let(n, anno, x)))
            },
            Err(err) => Err(err),
        }
    }

    /// An assignment.
    pub fn assn(s: &[char], i: usize) -> (r: Result<(usize, Assn), ParseError>)
        requires
            i <= s@.len(),
        ensures
            agrees(r, assn_at(s@, i as int)),
            advances(r, i as int, s@.len() as int),
    {
        let (c, n) = match Self::name(s, i) {
            Ok(x) => x,
            Err(_) => {
                return Err(ParseError::Mismatch);
            },
        };
        let d = skip_ws(s, c);
        if !tag1(s, d, '=') {
            return Err(ParseError::Mismatch);
        }
        match Self::expr(s, skip_ws(s, d + 1)) {
            Ok((f, x)) => Ok((f, Assn(n, x))),
            Err(err) => Err(err),
        }
    }

    /// One parameter with the blanks around it.
    fn param(s: &[char], a: usize) -> (r: Result<(usize, (Name, Path)), ParseError>)
        requires
            a <= s@.len(),
        ensures
            agrees(r, param_at(s@, a as int)),
            advances(r, a as int, s@.len() as int),
            r is Err ==> r == Err::<(usize, (Name, Path)), ParseError>(ParseError::Mismatch),
    {
        let (c, n) = match Self::name(s, skip_ws(s, a)) {
            Ok(x) => x,
            Err(_) => {
                return Err(ParseError::Mismatch);
            },
        };
        let d = skip_ws(s, c);
        if !tag1(s, d, ':') {
            return Err(ParseError::Mismatch);
        }
        match Self::path(s, skip_ws(s, d + 1)) {
            Ok((e, p)) => Ok((skip_ws(s, e), (n, p))),
            Err(_) => Err(ParseError::Mismatch),
        }
    }

    /// A comma-separated parameter list.
    fn params(s: &[char], a: usize) -> (r: (usize, Vec<(Name, Path)>))
        requires
            a <= s@.len(),
        ensures
            params_at(s@, a as int) == (r.0 as int, params_view(r.1@)),
            a <= r.0 <= s@.len(),
    {
        let mut ps: Vec<(Name, Path)> = Vec::new();
        let (c0, p0) = match Self::param(s, a) {
            Ok(x) => x,
            Err(_) => {
                assert(params_view(ps@) =~= Seq::<(Seq<char>, SpecPath)>::empty());
                return (a, ps);
            },
        };
        let ghost v0 = p0@;
        ps.push(p0);
        assert(params_view(ps@) =~= seq![v0]);
        let mut c = c0;
        loop
            invariant
                a < c0 <= c <= s@.len(),
                params_rest(s@, c0 as int).0 == params_rest(s@, c as int).0,
                seq![v0] + params_rest(s@, c0 as int).1 == params_view(ps@) + params_rest(
                    s@,
                    c as int,
                ).1,
            ensures
                params_rest(s@, c as int) == (c as int, Seq::<(Seq<char>, SpecPath)>::empty()),
            decreases s@.len() - c,
        {
            if !tag1(s, c, ',') {
                break;
            }
            match Self::param(s, c + 1) {
                Ok((d, p)) => {
                    let ghost old_ps = ps@;
                    let ghost x = p@;
                    ps.push(p);
                    assert(params_view(ps@) =~= params_view(old_ps).push(x));
                    assert(params_view(old_ps) + params_rest(s@, c as int).1 =~= params_view(ps@)
                        + params_rest(s@, d as int).1);
                    c = d;
                },
                Err(_) => {
                    break;
                },
            }
        }
        assert(params_view(ps@) + params_rest(s@, c as int).1 =~= params_view(ps@));
        (c, ps)
    }

    /// The head of a conditional: `if`, then what follows a keyword.
    fn head_if(s: &[char], i: usize) -> (r: Result<(usize, Expr), ParseError>)
        requires
            i <= s@.len(),
        ensures
            agrees(r, head_at(s@, i as int, seq!['i', 'f'])),
            advances(r, i as int, s@.len() as int),
    {
        if !tag2(s, i, 'i', 'f') {
            return Err(ParseError::Mismatch);
        }
        Self::head_rest(s, i + 2)
    }

    /// The head of a loop: `while`, then what follows a keyword.
    fn head_while(s: &[char], i: usize) -> (r: Result<(usize, Expr), ParseError>)
        requires
            i <= s@.len(),
        ensures
            agrees(r, head_at(s@, i as int, seq!['w', 'h', 'i', 'l', 'e'])),
            advances(r, i as int, s@.len() as int),
    {
        if !tag5(s, i, 'w', 'h', 'i', 'l', 'e') {
            return Err(ParseError::Mismatch);
        }
        Self::head_rest(s, i + 5)
    }

    /// What follows the keyword of a head.
    fn head_rest(s: &[char], a: usize) -> (r: Result<(usize, Expr), ParseError>)
        requires
            a <= s@.len(),
        ensures
            agrees(r, head_rest_at(s@, a as int)),
            advances(r, a as int, s@.len() as int),
    {
        let b = scan(s, a, CharClass::Space);
        if b == a {
            return Err(ParseError::Mismatch);
        }
        match Self::expr(s, b) {
            Ok((c, e)) => {
                let d = skip_ws(s, c);
                if tag1(s, d, ':') {
                    let le = scan_line_end(s, d + 1);
                    if le > d + 1 {
                        return Ok((le, e));
                    }
                }
                Err(ParseError::Mismatch)
            },
            Err(err) => Err(err),
        }
    }

    /// The head of a function definition: name, parameters and result path.
    fn def_head(s: &[char], i: usize) -> (r: Result<(usize, (Name, Vec<(Name, Path)>, Path)), ParseError>)
        requires
            i <= s@.len(),
        ensures
            match r {
                Ok((j, h)) => def_head_at(s@, i as int) == Parsed::Done(
                    j as int,
                    (h.0@, params_view(h.1@), h.2@),
                ) && i < j <= s@.len(),
                Err(ParseError::Mismatch) => def_head_at(s@, i as int) is Mismatch,
                Err(ParseError::Overflow) => false,
            },
    {
        if !tag3(s, i, 'd', 'e', 'f') {
            return Err(ParseError::Mismatch);
        }
        let b = scan(s, i + 3, CharClass::Space);
        if b == i + 3 {
            return Err(ParseError::Mismatch);
        }
        let (c, n) = match Self::name(s, b) {
            Ok(x) => x,
            Err(_) => {
                return Err(ParseError::Mismatch);
            },
        };
        let d = skip_ws(s, c);
        if !tag1(s, d, '(') {
            return Err(ParseError::Mismatch);
        }
        let (e, ps) = Self::params(s, d + 1);
        if !tag1(s, e, ')') {
            return Err(ParseError::Mismatch);
        }
        let f = skip_ws(s, e + 1);
        if !tag2(s, f, '-', '>') {
            return Err(ParseError::Mismatch);
        }
        let (g, rp) = match Self::path(s, skip_ws(s, f + 2)) {
            Ok(x) => x,
            Err(_) => {
                return Err(ParseError::Mismatch);
            },
        };
        let h = skip_ws(s, g);
        if !tag1(s, h, ':') {
            return Err(ParseError::Mismatch);
        }
        let le = scan_line_end(s, h + 1);
        if le == h + 1 {
            return Err(ParseError::Mismatch);
        }
        Ok((le, (n, ps, rp)))
    }

    /// A function definition.
    pub fn func(&self, s: &[char], i: usize) -> (r: Result<(usize, Func), ParseError>)
        requires
            i <= s@.len() < usize::MAX,
            self.0 < usize::MAX,
        ensures
            agrees(r, func_at(self.0 as int, s@, i as int)),
            advances(r, i as int, s@.len() as int),
        decreases s@.len() - i, 0int,
    {
        let (p, (n, ps, rp)) = match Self::def_head(s, i) {
            Ok(x) => x,
            Err(_) => {
                return Err(ParseError::Mismatch);
            },
        };
        match self.body(s, p) {
            Ok((m, b)) => Ok((m, Func(n, rp, ps, b))),
            Err(e) => Err(e),
        }
    }

    /// A conditional: `if`, a condition, and an indented body.
    #[verifier::spinoff_prover]
    pub fn cond(&self, s: &[char], i: usize) -> (r: Result<(usize, Cond), ParseError>)
        requires
            i <= s@.len() < usize::MAX,
            self.0 < usize::MAX,
        ensures
            agrees(r, block_at(self.0 as int, s@, i as int, seq!['i', 'f'])),
            advances(r, i as int, s@.len() as int),
        decreases s@.len() - i, 0int,
    {
        proof {
            reveal_with_fuel(block_at, 1);
        }
        let (p, e) = match Self::head_if(s, i) {
            Ok(x) => x,
            Err(err) => {
                return Err(err);
            },
        };
        match self.body(s, p) {
            Ok((m, b)) => Ok((m, Cond(e, b))),
            Err(err) => Err(err),
        }
    }

    /// A loop: `while`, a condition, and an indented body.
    #[verifier::spinoff_prover]
    pub fn fold(&self, s: &[char], i: usize) -> (r: Result<(usize, Loop), ParseError>)
        requires
            i <= s@.len() < usize::MAX,
            self.0 < usize::MAX,
        ensures
            agrees(r, block_at(self.0 as int, s@, i as int, seq!['w', 'h', 'i', 'l', 'e'])),
            advances(r, i as int, s@.len() as int),
        decreases s@.len() - i, 0int,
    {
        proof {
            reveal_with_fuel(block_at, 1);
        }
        let (p, e) = match Self::head_while(s, i) {
            Ok(x) => x,
            Err(err) => {
                return Err(err);
            },
        };
        match self.body(s, p) {
            Ok((m, b)) => Ok((m, Loop(e, b))),
            Err(err) => Err(err),
        }
    }

    /// A statement.
    #[verifier::spinoff_prover]
    pub fn stmt(&self, s: &[char], i: usize) -> (r: Result<(usize, Stmt), ParseError>)
        requires
            i <= s@.len() < usize::MAX,
            self.0 < usize::MAX,
        ensures
            agrees(r, stmt_at(self.0 as int, s@, i as int)),
            advances(r, i as int, s@.len() as int),
        decreases s@.len() - i, 2int,
    {
        match Self::ret(s, i) {
            Ok((j, e)) => {
                return Ok((j, Stmt::Ret(e)));
            },
            Err(ParseError::Overflow) => {
                return Err(ParseError::Overflow);
            },
            Err(ParseError::Mismatch) => {},
        }
        match self.func(s, i) {
            Ok((j, f)) => {
                return Ok((j, Stmt::Func(f)));
            },
            Err(ParseError::Overflow) => {
                return Err(ParseError::Overflow);
            },
            Err(ParseError::Mismatch) => {},
        }
        self.block_stmt(s, i)
    }

    /// A conditional, a loop, or a simple statement.
    #[verifier::spinoff_prover]
    #[verifier::rlimit(100)]
    fn block_stmt(&self, s: &[char], i: usize) -> (r: Result<(usize, Stmt), ParseError>)
        requires
            i <= s@.len() < usize::MAX,
            self.0 < usize::MAX,
        ensures
            agrees(r, block_stmt_at(self.0 as int, s@, i as int)),
            advances(r, i as int, s@.len() as int),
        decreases s@.len() - i, 1int,
    {
        let ghost k = self.0 as int;
        match self.cond(s, i) {
            Ok((j, c)) => {
                let ghost cv = c@;
                let st = Stmt::Cond(c);
                assert(st@ == SpecStmt::Cond(cv.0, cv.1));
                assert(as_stmt(block_at(k, s@, i as int, seq!['i', 'f']), false) == Parsed::Done(j as int, st@));
                return Ok((j, st));
            },
            Err(ParseError::Overflow) => {
                return Err(ParseError::Overflow);
            },
            Err(ParseError::Mismatch) => {},
        }
        assert(block_stmt_at(k, s@, i as int) == or_else(as_stmt(block_at(k, s@, i as int, seq!['w', 'h', 'i', 'l', 'e']), true), simple_stmt_at(s@, i as int)));
        match self.fold(s, i) {
            Ok((j, l)) => {
                let ghost lv = l@;
                let st = Stmt::Loop(l);
                assert(st@ == SpecStmt::Loop(lv.0, lv.1));
                return Ok((j, st));
            },
            Err(ParseError::Overflow) => {
                return Err(ParseError::Overflow);
            },
            Err(ParseError::Mismatch) => {},
        }
        assert(block_stmt_at(k, s@, i as int) == simple_stmt_at(s@, i as int));
        Self::simple(s, i)
    }

    /// A binding, an assignment or a call.
    fn simple(s: &[char], i: usize) -> (r: Result<(usize, Stmt), ParseError>)
        requires
            i <= s@.len(),
        ensures
            agrees(r, simple_stmt_at(s@, i as int)),
            advances(r, i as int, s@.len() as int),
    {
        match Self::bind(s, i) {
            Ok((j, b)) => {
                return Ok((j, Stmt::Bind(b)));
            },
            Err(ParseError::Overflow) => {
                return Err(ParseError::Overflow);
            },
            Err(ParseError::Mismatch) => {},
        }
        match Self::assn(s, i) {
            Ok((j, a)) => {
                return Ok((j, Stmt::Assn(a)));
            },
            Err(ParseError::Overflow) => {
                return Err(ParseError::Overflow);
            },
            Err(ParseError::Mismatch) => {},
        }
        match Self::call(s, i) {
            Ok((j, c)) => Ok((j, Stmt::Call(c))),
            Err(err) => Err(err),
        }
    }

    /// A body indented deeper than this parser's indentation.
    pub fn body(&self, s: &[char], i: usize) -> (r: Result<(usize, Body), ParseError>)
        requires
            i <= s@.len() < usize::MAX,
            self.0 < usize::MAX,
        ensures
            agrees(r, body_at(self.0 as int, s@, i as int)),
            advances(r, i as int, s@.len() as int),
        decreases s@.len() - i, 3int,
    {
        let q = skip_blank_lines(s, i);
        let w = skip_ws(s, q);
        let count = w - q;
        if count < self.0 + 1 {
            return Err(ParseError::Mismatch);
        }
        let inner = Parser(count);
        let (j0, first) = match inner.stmt(s, w) {
            Ok(x) => x,
            Err(err) => {
                return Err(err);
            },
        };
        let ghost v0 = first@;
        let mut sts: Vec<Stmt> = Vec::new();
        sts.push(first);
        assert(stmts_view(sts@) =~= seq![v0]);
        let mut j = j0;
        loop
            invariant
                i < j0 <= j <= s@.len() < usize::MAX,
                1 <= count <= s@.len(),
                inner.0 == count,
                body_at(self.0 as int, s@, i as int) == prepend_parsed(
                    seq![v0],
                    body_items(count as int, s@, j0 as int),
                ),
                prepend_parsed(seq![v0], body_items(count as int, s@, j0 as int))
                    == prepend_parsed(stmts_view(sts@), body_items(count as int, s@, j as int)),
            ensures
                body_items(count as int, s@, j as int) == Parsed::Done(
                    j as int,
                    Seq::<SpecStmt>::empty(),
                ),
            decreases s@.len() - j,
        {
            let q = skip_blank_lines(s, j);
            let w = skip_ws(s, q);
            if w - q < count {
                break;
            }
            match inner.stmt(s, q + count) {
                Ok((e, st)) => {
                    let ghost old_sts = sts@;
                    let ghost x = st@;
                    sts.push(st);
                    assert(stmts_view(sts@) =~= stmts_view(old_sts) + seq![x]);
                    proof {
                        lemma_prepend_assoc(
                            stmts_view(old_sts),
                            seq![x],
                            body_items(count as int, s@, e as int),
                        );
                    }
                    j = e;
                },
                Err(ParseError::Mismatch) => {
                    break;
                },
                Err(ParseError::Overflow) => {
                    return Err(ParseError::Overflow);
                },
            }
        }
        assert(stmts_view(sts@) + Seq::<SpecStmt>::empty() =~= stmts_view(sts@));
        Ok((j, Body(sts)))
    }

    /// A top-level item.
    pub fn item(s: &[char], i: usize) -> (r: Result<(usize, Item), ParseError>)
        requires
            i <= s@.len() < usize::MAX,
        ensures
            agrees(r, item_at(s@, i as int)),
            advances(r, i as int, s@.len() as int),
    {
        let mut local = false;
        let mut a = i;
        if tag5(s, i, 'l', 'o', 'c', 'a', 'l') {
            let lb = scan(s, i + 5, CharClass::Space);
            if lb > i + 5 {
                local = true;
                a = lb;
            }
        }
        match Self::bind(s, a) {
            Ok((j, b)) => {
                return Ok((j, Item::Bind(local, b)));
            },
            Err(ParseError::Overflow) => {
                return Err(ParseError::Overflow);
            },
            Err(ParseError::Mismatch) => {},
        }
        match Parser(0).func(s, a) {
            Ok((j, f)) => Ok((j, Item::Func(local, f))),
            Err(err) => Err(err),
        }
    }

    /// One line's element of a file: an item, or blanks only.
    fn elem(s: &[char], i: usize) -> (r: Result<(usize, Option<Item>), ParseError>)
        requires
            i <= s@.len() < usize::MAX,
        ensures
            agrees_opt(r, file_elem(s@, i as int)),
            r matches Ok((j, _)) ==> i <= j <= s@.len(),
            r is Err ==> r == Err::<(usize, Option<Item>), ParseError>(ParseError::Overflow),
    {
        match Self::item(s, i) {
            Ok((j, it)) => Ok((j, Some(it))),
            Err(ParseError::Mismatch) => Ok((skip_ws(s, i), None)),
            Err(ParseError::Overflow) => Err(ParseError::Overflow),
        }
    }

    /// A whole file, which must be consumed entirely.
    pub fn file(s: &[char]) -> (r: Result<File, ParseError>)
        requires
            s@.len() < usize::MAX,
        ensures
            match r {
                Ok(f) => file_at(s@) == Parsed::Done(s@.len() as int, f@),
                Err(ParseError::Mismatch) => file_at(s@) is Mismatch,
                Err(ParseError::Overflow) => file_at(s@) is Overflow,
            },
    {
        let (j0, o0) = match Self::elem(s, 0) {
            Ok(x) => x,
            Err(err) => {
                return Err(err);
            },
        };
        let ghost first = opt_view(o0);
        let mut items: Vec<Item> = Vec::new();
        match o0 {
            Some(it) => {
                items.push(it);
            },
            None => {},
        }
        assert(items_view(items@) =~= elem_items(first));
        let mut j = j0;
        loop
            invariant
                j0 <= j <= s@.len() < usize::MAX,
                file_at(s@) == (match prepend_parsed(elem_items(first), file_rest(s@, j0 as int)) {
                    Parsed::Done(m, its) => if m == s@.len() {
                        Parsed::Done(m, its)
                    } else {
                        Parsed::Mismatch
                    },
                    other => other,
                }),
                prepend_parsed(elem_items(first), file_rest(s@, j0 as int)) == prepend_parsed(
                    items_view(items@),
                    file_rest(s@, j as int),
                ),
            ensures
                file_rest(s@, j as int) == Parsed::Done(j as int, Seq::<SpecItem>::empty()),
            decreases s@.len() - j,
        {
            let e = scan_line_end(s, j);
            if e == j {
                break;
            }
            match Self::elem(s, e) {
                Ok((k, o)) => {
                    let ghost old_items = items@;
                    let ghost x = opt_view(o);
                    match o {
                        Some(it) => {
                            items.push(it);
                        },
                        None => {},
                    }
                    assert(items_view(items@) =~= items_view(old_items) + elem_items(x));
                    proof {
                        lemma_prepend_assoc(items_view(old_items), elem_items(x), file_rest(s@, k as int));
                    }
                    j = k;
                },
                Err(err) => {
                    return Err(err);
                },
            }
        }
        assert(items_view(items@) + Seq::<SpecItem>::empty() =~= items_view(items@));
        if j == s.len() {
            let f = File(items);
            assert(f@ =~= items_view(items@));
            Ok(f)
        } else {
            Err(ParseError::Mismatch)
        }
    }
}

/// Whether `r` is the result of parsing all of `src` as one item: the item
/// when it takes the whole input, a mismatch when it does not match or
/// stops early.
pub open spec fn whole_item(src: Seq<char>, r: Result<Item, ParseError>) -> bool {
    match r {
        Ok(it) => item_at(src, 0) == Parsed::Done(src.len() as int, it@),
        Err(ParseError::Mismatch) => match item_at(src, 0) {
            Parsed::Done(j, _) => j != src.len(),
            Parsed::Mismatch => true,
            Parsed::Overflow => false,
        },
        Err(ParseError::Overflow) => item_at(src, 0) is Overflow,
    }
}

/// Whether `r` is the result of parsing `src` as a file.
pub open spec fn whole_file(src: Seq<char>, r: Result<File, ParseError>) -> bool {
    match r {
        Ok(f) => file_at(src) == Parsed::Done(src.len() as int, f@),
        Err(ParseError::Mismatch) => file_at(src) is Mismatch,
        Err(ParseError::Overflow) => file_at(src) is Overflow,
    }
}

/// Parses all of `text` as one item.
pub fn parse_item_text(text: &str) -> (r: Result<Item, ParseError>)
    requires
        text@.len() < usize::MAX,
    ensures
        whole_item(text@, r),
{
    let chars = chars_of(text);
    let s = chars.as_slice();
    match Parser::item(s, 0) {
        Ok((j, it)) => if j == s.len() {
            Ok(it)
        } else {
            Err(ParseError::Mismatch)
        },
        Err(e) => Err(e),
    }
}

/// Parses `text` as a file.
pub fn parse_file_text(text: &str) -> (r: Result<File, ParseError>)
    requires
        text@.len() < usize::MAX,
    ensures
        whole_file(text@, r),
{
    let chars = chars_of(text);
    Parser::file(chars.as_slice())
}

} // verus!
