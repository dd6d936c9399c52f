//! The meaning of programs: a big-step evaluation function over the model
//! of syntax and values.
//!
//! Evaluation is bounded by `fuel`: every call of a user function and
//! every loop iteration spends one unit, and evaluation reports
//! `Exhausted` when none is left.
use vstd::prelude::*;
use vstd::utf8::encode_utf8;
use crate::scope::{assign, bind_top, lookup};
use crate::syntax::{Order, SpecCall, SpecExpr, SpecItem, SpecPath, SpecPrim, SpecStmt};
use crate::value::{Intrinsic, SpecBinding, SpecEffect, SpecError, SpecValue};

verus! {

/// The interpreter's state: the scope stack, innermost last, and the
/// requests made of the host so far.
pub struct SState {
    pub scopes: Seq<Map<SpecPath, SpecBinding>>,
    pub effects: Seq<SpecEffect>,
}

/// A state with its scope stack replaced.
pub open spec fn with_scopes(st: SState, scopes: Seq<Map<SpecPath, SpecBinding>>) -> SState {
    SState { scopes: scopes, effects: st.effects }
}

/// A state with one more request of the host.
pub open spec fn emit(st: SState, e: SpecEffect) -> SState {
    SState { scopes: st.scopes, effects: st.effects.push(e) }
}

/// Whether the request record `b` extends the record `a`: it holds all of
/// `a`, in order, and possibly more after it.
pub open spec fn extends(a: Seq<SpecEffect>, b: Seq<SpecEffect>) -> bool {
    a.len() <= b.len() && forall|i: int| 0 <= i < a.len() ==> #[trigger] b[i] == a[i]
}

/// Whether an error ends the run at once, whatever evaluation is pending.
pub open spec fn is_fault(e: SpecError) -> bool {
    !(e is Invalid)
}

/// The path of a single identifier.
pub open spec fn single(n: Seq<char>) -> SpecPath {
    seq![n]
}

// ---------------------------------------------------------------------
// Operators.

pub open spec fn fits_isize(v: int) -> bool {
    isize::MIN <= v <= isize::MAX
}

/// The value of an arithmetic or bitwise operator on two numbers.
#[verifier::opaque]
pub open spec fn num_op(e: SpecExpr, a: isize, b: isize) -> Result<SpecValue, SpecError> {
    match e {
        SpecExpr::Add(_, _) => if fits_isize(a + b) { Ok(SpecValue::Num((a + b) as isize)) } else { Err(SpecError::Overflow) },
        SpecExpr::Sub(_, _) => if fits_isize(a - b) { Ok(SpecValue::Num((a - b) as isize)) } else { Err(SpecError::Overflow) },
        SpecExpr::Mul(_, _) => if fits_isize(a * b) { Ok(SpecValue::Num((a * b) as isize)) } else { Err(SpecError::Overflow) },
        SpecExpr::Div(_, _) => if b == 0 {
            Err(SpecError::DivisionByZero)
        } else {
            match a.checked_div(b) {
                Some(q) => Ok(SpecValue::Num(q)),
                None => Err(SpecError::Overflow),
            }
        },
        SpecExpr::Mod(_, _) => if b == 0 {
            Err(SpecError::DivisionByZero)
        } else {
            match a.checked_rem(b) {
                Some(q) => Ok(SpecValue::Num(q)),
                None => Err(SpecError::Overflow),
            }
        },
        SpecExpr::BitShl(_, _) => if 0 <= b < usize::BITS {
            Ok(SpecValue::Num(a.wrapping_shl(b as u32)))
        } else {
            Err(SpecError::ShiftOverflow)
        },
        SpecExpr::BitAnd(_, _) => Ok(SpecValue::Num(a & b)),
        SpecExpr::BitOrr(_, _) => Ok(SpecValue::Num(a | b)),
        SpecExpr::Ord(negate, order, _, _) => {
            let holds = match order {
                Order::Less => a < b,
                Order::Equal => a == b,
                Order::Greater => a > b,
            };
            Ok(SpecValue::Bool(if negate { !holds } else { holds }))
        },
        _ => Err(SpecError::Invalid),
    }
}

/// The value of a binary operator on two operand values.
#[verifier::opaque]
pub open spec fn binary_op(e: SpecExpr, l: SpecValue, r: SpecValue) -> Result<SpecValue, SpecError> {
    match e {
        SpecExpr::And(_, _) => match (l, r) {
            (SpecValue::Bool(a), SpecValue::Bool(b)) => Ok(SpecValue::Bool(a && b)),
            _ => Err(SpecError::Invalid),
        },
        SpecExpr::Orr(_, _) => match (l, r) {
            (SpecValue::Bool(a), SpecValue::Bool(b)) => Ok(SpecValue::Bool(a || b)),
            _ => Err(SpecError::Invalid),
        },
        _ => match (l, r) {
            (SpecValue::Num(a), SpecValue::Num(b)) => num_op(e, a, b),
            _ => Err(SpecError::Invalid),
        },
    }
}

/// The operands of a binary expression.
pub open spec fn operands(e: SpecExpr) -> (SpecPrim, SpecPrim) {
    match e {
        SpecExpr::And(l, r) => (l, r),
        SpecExpr::Orr(l, r) => (l, r),
        SpecExpr::Add(l, r) => (l, r),
        SpecExpr::Sub(l, r) => (l, r),
        SpecExpr::Mul(l, r) => (l, r),
        SpecExpr::Div(l, r) => (l, r),
        SpecExpr::Mod(l, r) => (l, r),
        SpecExpr::BitShl(l, r) => (l, r),
        SpecExpr::BitAnd(l, r) => (l, r),
        SpecExpr::BitOrr(l, r) => (l, r),
        SpecExpr::Ord(_, _, l, r) => (l, r),
        SpecExpr::Prim(p) => (p, p),
        SpecExpr::Comp(p) => (p, p),
        SpecExpr::BitNot(p) => (p, p),
    }
}

/// Whether an expression applies a binary operator.
pub open spec fn is_binary(e: SpecExpr) -> bool {
    !(e is Prim || e is Comp || e is BitNot)
}

/// An array of `n` zeroes.
pub open spec fn zeroes(n: usize) -> Seq<SpecValue> {
    Seq::new(n as nat, |i: int| SpecValue::Num(0))
}

// ---------------------------------------------------------------------
// Evaluation.

/// Evaluates an expression.
pub open spec fn sem_expr(fuel: nat, st: SState, e: SpecExpr, input: u8) -> (SState, Result<SpecValue, SpecError>)
    decreases fuel, 0int, e, 2int,
{
    match e {
        SpecExpr::Prim(p) => sem_prim(fuel, st, p, input),
        SpecExpr::Comp(p) => {
            let (s1, r) = sem_prim(fuel, st, p, input);
            (s1, match r {
                Ok(SpecValue::Bool(b)) => Ok(SpecValue::Bool(!b)),
                Ok(_) => Err(SpecError::Invalid),
                Err(x) => Err(x),
            })
        },
        SpecExpr::BitNot(p) => {
            let (s1, r) = sem_prim(fuel, st, p, input);
            (s1, match r {
                Ok(SpecValue::Num(n)) => Ok(SpecValue::Num(!n)),
                Ok(_) => Err(SpecError::Invalid),
                Err(x) => Err(x),
            })
        },
        _ => {
            let (s2, r) = sem_operands(fuel, st, e, input);
            (s2, match r {
                Ok((a, b)) => binary_op(e, a, b),
                Err(x) => Err(x),
            })
        },
    }
}

/// Evaluates both operands of a binary expression, left to right; the
/// right one is evaluated even when the left one is invalid, but not after
/// a fault.
pub open spec fn sem_operands(fuel: nat, st: SState, e: SpecExpr, input: u8) -> (SState, Result<(SpecValue, SpecValue), SpecError>)
    decreases fuel, 0int, e, 1int,
{
    if is_binary(e) {
        let (l, r) = operands(e);
        let (s1, r1) = sem_prim(fuel, st, l, input);
        if r1 is Err && is_fault(r1->Err_0) {
            (s1, Err(r1->Err_0))
        } else {
            let (s2, r2) = sem_prim(fuel, s1, r, input);
            if r2 is Err && is_fault(r2->Err_0) {
                (s2, Err(r2->Err_0))
            } else {
                match (r1, r2) {
                    (Ok(a), Ok(b)) => (s2, Ok((a, b))),
                    _ => (s2, Err(SpecError::Invalid)),
                }
            }
        }
    } else {
        (st, Err(SpecError::Invalid))
    }
}

/// Evaluates a primary expression.
pub open spec fn sem_prim(fuel: nat, st: SState, p: SpecPrim, input: u8) -> (SState, Result<SpecValue, SpecError>)
    decreases fuel, 0int, p, 0int,
{
    match p {
        SpecPrim::Arr(n) => (st, Ok(SpecValue::Arr(zeroes(n)))),
        SpecPrim::Num(n) => (st, Ok(SpecValue::Num(n))),
        SpecPrim::Str(s) => (st, Ok(SpecValue::Str(s))),
        SpecPrim::Bool(b) => (st, Ok(SpecValue::Bool(b))),
        SpecPrim::Path(path) => (st, match lookup(st.scopes, path) {
            None => Err(SpecError::Invalid),
            Some(SpecBinding::Value(_, v)) => Ok(v),
            Some(_) => Err(SpecError::Undefined(path)),
        }),
        SpecPrim::Call(c) => sem_call(fuel, st, c, input),
        SpecPrim::Sect(e) => sem_expr(fuel, st, *e, input),
    }
}

/// Evaluates a call.
pub open spec fn sem_call(fuel: nat, st: SState, c: SpecCall, input: u8) -> (SState, Result<SpecValue, SpecError>)
    decreases fuel, 0int, c, 0int,
{
    match lookup(st.scopes, c.path) {
        None => (st, Err(SpecError::Invalid)),
        Some(SpecBinding::Value(_, _)) => (st, Err(SpecError::Invalid)),
        Some(SpecBinding::Intrinsic(which)) => sem_intrinsic(fuel, st, which, c.args, input),
        Some(SpecBinding::Func(f)) => sem_invoke(fuel, st, f.params, f.body, c.args, input),
    }
}

/// Calls a user function with argument expressions: the arguments are
/// evaluated into a new frame, the body runs on top of it, and the frame
/// is popped when the body completes.
pub open spec fn sem_invoke(
    fuel: nat,
    st: SState,
    params: Seq<(Seq<char>, SpecPath)>,
    body: Seq<SpecStmt>,
    args: Seq<SpecExpr>,
    input: u8,
) -> (SState, Result<SpecValue, SpecError>)
    decreases fuel, 0int, args, args.len() + 1,
{
    if fuel == 0 {
        (st, Err(SpecError::Exhausted))
    } else {
        let (s1, r) = sem_args(fuel, st, params, args, 0, Map::empty(), input);
        match r {
            Err(x) => (s1, Err(x)),
            Ok(frame) => {
                let s2 = with_scopes(s1, s1.scopes.push(frame));
                let (s3, r3) = sem_body((fuel - 1) as nat, s2, body, 0, input);
                match r3 {
                    Err(x) => (s3, Err(x)),
                    Ok(v) => (
                        with_scopes(s3, s3.scopes.drop_last()),
                        Ok(match v { Some(v) => v, None => SpecValue::Unit }),
                    ),
                }
            },
        }
    }
}

/// Evaluates the arguments of a user-function call into the frame of its
/// parameters, as far as both lists reach.
pub open spec fn sem_args(
    fuel: nat,
    st: SState,
    params: Seq<(Seq<char>, SpecPath)>,
    args: Seq<SpecExpr>,
    k: int,
    frame: Map<SpecPath, SpecBinding>,
    input: u8,
) -> (SState, Result<Map<SpecPath, SpecBinding>, SpecError>)
    decreases fuel, 0int, args, args.len() - k,
{
    if 0 <= k < params.len() && k < args.len() {
        let (s1, r) = sem_expr(fuel, st, args[k], input);
        match r {
            Err(x) => (s1, Err(x)),
            Ok(v) => sem_args(
                fuel,
                s1,
                params,
                args,
                k + 1,
                frame.insert(single(params[k].0), SpecBinding::Value(false, v)),
                input,
            ),
        }
    } else {
        (st, Ok(frame))
    }
}

/// Evaluates the argument at position `k`; a missing argument is invalid.
pub open spec fn sem_arg(fuel: nat, st: SState, args: Seq<SpecExpr>, k: int, input: u8) -> (SState, Result<SpecValue, SpecError>)
    decreases fuel, 0int, args, 0int,
{
    if 0 <= k < args.len() {
        sem_expr(fuel, st, args[k], input)
    } else {
        (st, Err(SpecError::Invalid))
    }
}

/// Evaluates a call of a built-in.
pub open spec fn sem_intrinsic(fuel: nat, st: SState, which: Intrinsic, args: Seq<SpecExpr>, input: u8) -> (SState, Result<SpecValue, SpecError>)
    decreases fuel, 0int, args, 2int,
{
    match which {
        Intrinsic::Draw => sem_draw(fuel, st, args, input),
        Intrinsic::Pressed => sem_pressed(fuel, st, args, input),
        Intrinsic::ArrayGet => sem_array_get(fuel, st, args, input),
        Intrinsic::ArraySet => sem_array_set(fuel, st, args, input),
        Intrinsic::CharCode => sem_char_code(fuel, st, args, input),
        Intrinsic::LoadTilemap => sem_load_tilemap(fuel, st, args, input),
    }
}

/// `Window.draw(window, tile, x, y)`: asks the host to draw a tile.
pub open spec fn sem_draw(fuel: nat, st: SState, args: Seq<SpecExpr>, input: u8) -> (SState, Result<SpecValue, SpecError>)
    decreases fuel, 0int, args, 1int,
{
    let (s1, r0) = sem_arg(fuel, st, args, 0, input);
    match r0 {
        Err(x) => (s1, Err(x)),
        Ok(SpecValue::Window) => {
            let (s2, r1) = sem_arg(fuel, s1, args, 1, input);
            match r1 {
                Err(x) => (s2, Err(x)),
                Ok(SpecValue::Num(tile)) => {
                    let (s3, r2) = sem_arg(fuel, s2, args, 2, input);
                    match r2 {
                        Err(x) => (s3, Err(x)),
                        Ok(SpecValue::Num(x)) => {
                            let (s4, r3) = sem_arg(fuel, s3, args, 3, input);
                            match r3 {
                                Err(e) => (s4, Err(e)),
                                Ok(SpecValue::Num(y)) => (
                                    emit(s4, SpecEffect::DrawTile(tile as u32, x as u32, y as u32)),
                                    Ok(SpecValue::Unit),
                                ),
                                Ok(_) => (s4, Err(SpecError::Invalid)),
                            }
                        },
                        Ok(_) => (s3, Err(SpecError::Invalid)),
                    }
                },
                Ok(_) => (s2, Err(SpecError::Invalid)),
            }
        },
        Ok(_) => (s1, Err(SpecError::Invalid)),
    }
}

/// `Input.pressed(input, button)`: whether a button is held.
pub open spec fn sem_pressed(fuel: nat, st: SState, args: Seq<SpecExpr>, input: u8) -> (SState, Result<SpecValue, SpecError>)
    decreases fuel, 0int, args, 1int,
{
    let (s1, r0) = sem_arg(fuel, st, args, 0, input);
    match r0 {
        Err(x) => (s1, Err(x)),
        Ok(SpecValue::Input) => {
            let (s2, r1) = sem_arg(fuel, s1, args, 1, input);
            match r1 {
                Err(x) => (s2, Err(x)),
                Ok(SpecValue::Num(b)) => if b < 0 || b > 5 {
                    (s2, Err(SpecError::Invalid))
                } else {
                    (s2, Ok(SpecValue::Bool(input & (1u8 << (b as u8)) != 0)))
                },
                Ok(_) => (s2, Err(SpecError::Invalid)),
            }
        },
        Ok(_) => (s1, Err(SpecError::Invalid)),
    }
}

/// `Array.get(array, index)`: the element at an index.
pub open spec fn sem_array_get(fuel: nat, st: SState, args: Seq<SpecExpr>, input: u8) -> (SState, Result<SpecValue, SpecError>)
    decreases fuel, 0int, args, 1int,
{
    let (s1, r0) = sem_arg(fuel, st, args, 0, input);
    match r0 {
        Err(x) => (s1, Err(x)),
        Ok(SpecValue::Arr(items)) => {
            let (s2, r1) = sem_arg(fuel, s1, args, 1, input);
            match r1 {
                Err(x) => (s2, Err(x)),
                Ok(SpecValue::Num(idx)) => if idx < 0 {
                    (s2, Err(SpecError::Invalid))
                } else if idx >= items.len() {
                    (s2, Err(SpecError::ArrayGetOutOfBounds(items.len() as usize, idx as usize)))
                } else {
                    (s2, Ok(items[idx as int]))
                },
                Ok(_) => (s2, Err(SpecError::Invalid)),
            }
        },
        Ok(_) => (s1, Err(SpecError::Invalid)),
    }
}

/// `Array.set(array, index, value)`: a copy of the array with one element
/// replaced.
pub open spec fn sem_array_set(fuel: nat, st: SState, args: Seq<SpecExpr>, input: u8) -> (SState, Result<SpecValue, SpecError>)
    decreases fuel, 0int, args, 1int,
{
    let (s1, r0) = sem_arg(fuel, st, args, 0, input);
    match r0 {
        Err(x) => (s1, Err(x)),
        Ok(SpecValue::Arr(items)) => {
            let (s2, r1) = sem_arg(fuel, s1, args, 1, input);
            match r1 {
                Err(x) => (s2, Err(x)),
                Ok(SpecValue::Num(idx)) => {
                    let (s3, r2) = sem_arg(fuel, s2, args, 2, input);
                    match r2 {
                        Err(x) => (s3, Err(x)),
                        Ok(v) => if idx < 0 {
                            (s3, Err(SpecError::Invalid))
                        } else if idx >= items.len() {
                            (s3, Err(SpecError::ArraySetOutOfBounds(items.len() as usize, idx as usize)))
                        } else {
                            (s3, Ok(SpecValue::Arr(items.update(idx as int, v))))
                        },
                    }
                },
                Ok(_) => (s2, Err(SpecError::Invalid)),
            }
        },
        Ok(_) => (s1, Err(SpecError::Invalid)),
    }
}

/// `String.char_code(string, index)`: the byte at an index of the UTF-8
/// encoding.
pub open spec fn sem_char_code(fuel: nat, st: SState, args: Seq<SpecExpr>, input: u8) -> (SState, Result<SpecValue, SpecError>)
    decreases fuel, 0int, args, 1int,
{
    let (s1, r0) = sem_arg(fuel, st, args, 0, input);
    match r0 {
        Err(x) => (s1, Err(x)),
        Ok(SpecValue::Str(s)) => {
            let (s2, r1) = sem_arg(fuel, s1, args, 1, input);
            match r1 {
                Err(x) => (s2, Err(x)),
                Ok(SpecValue::Num(idx)) => {
                    let bytes = encode_utf8(s);
                    if idx < 0 {
                        (s2, Err(SpecError::CharCodeIndex(idx)))
                    } else if idx >= bytes.len() {
                        (s2, Err(SpecError::CharCodeOutOfRange(bytes.len() as usize, idx as usize)))
                    } else {
                        (s2, Ok(SpecValue::Num(bytes[idx as int] as isize)))
                    }
                },
                Ok(_) => (s2, Err(SpecError::Invalid)),
            }
        },
        Ok(_) => (s1, Err(SpecError::Invalid)),
    }
}

/// `Window.load_tilemap(window, tiles)`: asks the host to load tiles.
pub open spec fn sem_load_tilemap(fuel: nat, st: SState, args: Seq<SpecExpr>, input: u8) -> (SState, Result<SpecValue, SpecError>)
    decreases fuel, 0int, args, 1int,
{
    let (s1, r0) = sem_arg(fuel, st, args, 0, input);
    match r0 {
        Err(x) => (s1, Err(x)),
        Ok(SpecValue::Window) => {
            let (s2, r1) = sem_arg(fuel, s1, args, 1, input);
            match r1 {
                Err(x) => (s2, Err(x)),
                Ok(SpecValue::Str(s)) => (emit(s2, SpecEffect::LoadTile(s)), Ok(SpecValue::Unit)),
                Ok(_) => (s2, Err(SpecError::Invalid)),
            }
        },
        Ok(_) => (s1, Err(SpecError::Invalid)),
    }
}

/// Runs the statements of a body from position `k`: `Ok(None)` when it
/// runs to its end, `Ok(Some(v))` when a statement returns `v`.
pub open spec fn sem_body(fuel: nat, st: SState, stmts: Seq<SpecStmt>, k: int, input: u8) -> (SState, Result<Option<SpecValue>, SpecError>)
    decreases fuel, 1int, stmts, stmts.len() - k,
{
    if 0 <= k < stmts.len() {
        let (s1, r) = sem_stmt(fuel, st, stmts[k], input);
        match r {
            Err(x) => (s1, Err(x)),
            Ok(Some(v)) => (s1, Ok(Some(v))),
            Ok(None) => sem_body(fuel, s1, stmts, k + 1, input),
        }
    } else {
        (st, Ok(None))
    }
}

/// Runs a statement.
pub open spec fn sem_stmt(fuel: nat, st: SState, s: SpecStmt, input: u8) -> (SState, Result<Option<SpecValue>, SpecError>)
    decreases fuel, 1int, s, 1int,
{
    match s {
        SpecStmt::Bind(b) => {
            let (s1, r) = sem_expr(fuel, st, b.expr, input);
            match r {
                Err(x) => (s1, Err(x)),
                Ok(v) => match bind_top(s1.scopes, single(b.name), SpecBinding::Value(b.mutable, v)) {
                    None => (s1, Err(SpecError::Invalid)),
                    Some(sc) => (with_scopes(s1, sc), Ok(None)),
                },
            }
        },
        SpecStmt::Assn(n, e) => {
            let (s1, r) = sem_expr(fuel, st, e, input);
            match r {
                Err(x) => (s1, Err(x)),
                Ok(v) => match assign(s1.scopes, single(n), SpecBinding::Value(true, v)) {
                    None => (s1, Err(SpecError::Invalid)),
                    Some(sc) => (with_scopes(s1, sc), Ok(None)),
                },
            }
        },
        SpecStmt::Func(f) => match bind_top(st.scopes, single(f.name), SpecBinding::Func(f)) {
            None => (st, Err(SpecError::Invalid)),
            Some(sc) => (with_scopes(st, sc), Ok(None)),
        },
        SpecStmt::Call(c) => {
            let (s1, r) = sem_call(fuel, st, c, input);
            (s1, match r {
                Ok(_) => Ok(None),
                Err(x) => Err(x),
            })
        },
        SpecStmt::Cond(c, body) => {
            let (s1, r) = sem_expr(fuel, st, c, input);
            match r {
                Err(x) => (s1, Err(x)),
                Ok(SpecValue::Bool(true)) => sem_body(fuel, s1, body, 0, input),
                Ok(SpecValue::Bool(false)) => (s1, Ok(None)),
                Ok(_) => (s1, Err(SpecError::Invalid)),
            }
        },
        SpecStmt::Loop(c, body) => sem_loop(fuel, st, c, body, input),
        SpecStmt::Ret(None) => (st, Ok(Some(SpecValue::Unit))),
        SpecStmt::Ret(Some(e)) => {
            let (s1, r) = sem_expr(fuel, st, e, input);
            (s1, match r {
                Ok(v) => Ok(Some(v)),
                Err(x) => Err(x),
            })
        },
    }
}

/// Runs a loop: each iteration spends one unit of fuel, tests the
/// condition, and runs the body while it holds.
pub open spec fn sem_loop(fuel: nat, st: SState, c: SpecExpr, body: Seq<SpecStmt>, input: u8) -> (SState, Result<Option<SpecValue>, SpecError>)
    decreases fuel, 1int, body, 0int,
{
    if fuel == 0 {
        (st, Err(SpecError::Exhausted))
    } else {
        let (s1, r) = sem_expr((fuel - 1) as nat, st, c, input);
        match r {
            Err(x) => (s1, Err(x)),
            Ok(SpecValue::Bool(false)) => (s1, Ok(None)),
            Ok(SpecValue::Bool(true)) => {
                let (s2, r2) = sem_body((fuel - 1) as nat, s1, body, 0, input);
                match r2 {
                    Err(x) => (s2, Err(x)),
                    Ok(Some(v)) => (s2, Ok(Some(v))),
                    Ok(None) => sem_loop((fuel - 1) as nat, s2, c, body, input),
                }
            },
            Ok(_) => (s1, Err(SpecError::Invalid)),
        }
    }
}

} // verus!

verus! {

// ---------------------------------------------------------------------
// Evaluation keeps the depth of the scope stack and only appends to the
// record of host requests.

/// Rebinding a name never changes the number of scopes.
pub proof fn lemma_assign_depth(stack: Seq<Map<SpecPath, SpecBinding>>, path: SpecPath, b: SpecBinding)
    ensures
        assign(stack, path, b) matches Some(s) ==> s.len() == stack.len(),
    decreases stack.len(),
{
    if stack.len() > 0 && !stack.last().contains_key(path) {
        lemma_assign_depth(stack.drop_last(), path, b);
    }
}

/// A successful evaluation leaves as many scopes as it found, and any
/// evaluation only adds to the record of requests made of the host (the
/// same holds of each of the following lemmas for its kind of node).
pub proof fn lemma_expr_depth(fuel: nat, st: SState, e: SpecExpr, input: u8)
    ensures
        sem_expr(fuel, st, e, input).1 is Ok ==> sem_expr(fuel, st, e, input).0.scopes.len() == st.scopes.len(),
        extends(st.effects, sem_expr(fuel, st, e, input).0.effects),
    decreases fuel, 0int, e, 2int,
{
    match e {
        SpecExpr::Prim(p) => lemma_prim_depth(fuel, st, p, input),
        SpecExpr::Comp(p) => lemma_prim_depth(fuel, st, p, input),
        SpecExpr::BitNot(p) => lemma_prim_depth(fuel, st, p, input),
        _ => lemma_operands_depth(fuel, st, e, input),
    }
}

pub proof fn lemma_operands_depth(fuel: nat, st: SState, e: SpecExpr, input: u8)
    ensures
        sem_operands(fuel, st, e, input).1 is Ok ==> sem_operands(fuel, st, e, input).0.scopes.len() == st.scopes.len(),
        extends(st.effects, sem_operands(fuel, st, e, input).0.effects),
    decreases fuel, 0int, e, 1int,
{
    if is_binary(e) {
        let (l, r) = operands(e);
        lemma_prim_depth(fuel, st, l, input);
        let s1 = sem_prim(fuel, st, l, input).0;
        lemma_prim_depth(fuel, s1, r, input);
    }
}

pub proof fn lemma_prim_depth(fuel: nat, st: SState, p: SpecPrim, input: u8)
    ensures
        sem_prim(fuel, st, p, input).1 is Ok ==> sem_prim(fuel, st, p, input).0.scopes.len() == st.scopes.len(),
        extends(st.effects, sem_prim(fuel, st, p, input).0.effects),
    decreases fuel, 0int, p, 0int,
{
    match p {
        SpecPrim::Call(c) => lemma_call_depth(fuel, st, c, input),
        SpecPrim::Sect(e) => lemma_expr_depth(fuel, st, *e, input),
        _ => {},
    }
}

pub proof fn lemma_call_depth(fuel: nat, st: SState, c: SpecCall, input: u8)
    ensures
        sem_call(fuel, st, c, input).1 is Ok ==> sem_call(fuel, st, c, input).0.scopes.len() == st.scopes.len(),
        extends(st.effects, sem_call(fuel, st, c, input).0.effects),
    decreases fuel, 0int, c, 0int,
{
    match lookup(st.scopes, c.path) {
        Some(SpecBinding::Intrinsic(which)) => lemma_intrinsic_depth(fuel, st, which, c.args, input),
        Some(SpecBinding::Func(f)) => lemma_invoke_depth(fuel, st, f.params, f.body, c.args, input),
        _ => {},
    }
}

pub proof fn lemma_invoke_depth(
    fuel: nat,
    st: SState,
    params: Seq<(Seq<char>, SpecPath)>,
    body: Seq<SpecStmt>,
    args: Seq<SpecExpr>,
    input: u8,
)
    ensures
        sem_invoke(fuel, st, params, body, args, input).1 is Ok ==> sem_invoke(fuel, st, params, body, args, input).0.scopes.len() == st.scopes.len(),
        extends(st.effects, sem_invoke(fuel, st, params, body, args, input).0.effects),
    decreases fuel, 0int, args, args.len() + 1,
{
    if fuel > 0 {
        lemma_args_depth(fuel, st, params, args, 0, Map::empty(), input);
        let (s1, r) = sem_args(fuel, st, params, args, 0, Map::empty(), input);
        if let Ok(frame) = r {
            let s2 = with_scopes(s1, s1.scopes.push(frame));
            lemma_body_depth((fuel - 1) as nat, s2, body, 0, input);
        }
    }
}

pub proof fn lemma_args_depth(
    fuel: nat,
    st: SState,
    params: Seq<(Seq<char>, SpecPath)>,
    args: Seq<SpecExpr>,
    k: int,
    frame: Map<SpecPath, SpecBinding>,
    input: u8,
)
    ensures
        sem_args(fuel, st, params, args, k, frame, input).1 is Ok ==> sem_args(fuel, st, params, args, k, frame, input).0.scopes.len() == st.scopes.len(),
        extends(st.effects, sem_args(fuel, st, params, args, k, frame, input).0.effects),
    decreases fuel, 0int, args, args.len() - k,
{
    if 0 <= k < params.len() && k < args.len() {
        lemma_expr_depth(fuel, st, args[k], input);
        let (s1, r) = sem_expr(fuel, st, args[k], input);
        if let Ok(v) = r {
            lemma_args_depth(fuel, s1, params, args, k + 1, frame.insert(single(params[k].0), SpecBinding::Value(false, v)), input);
        }
    }
}

pub proof fn lemma_arg_depth(fuel: nat, st: SState, args: Seq<SpecExpr>, k: int, input: u8)
    ensures
        sem_arg(fuel, st, args, k, input).1 is Ok ==> sem_arg(fuel, st, args, k, input).0.scopes.len() == st.scopes.len(),
        extends(st.effects, sem_arg(fuel, st, args, k, input).0.effects),
    decreases fuel, 0int, args, 0int,
{
    if 0 <= k < args.len() {
        lemma_expr_depth(fuel, st, args[k], input);
    }
}

pub proof fn lemma_intrinsic_depth(fuel: nat, st: SState, which: Intrinsic, args: Seq<SpecExpr>, input: u8)
    ensures
        sem_intrinsic(fuel, st, which, args, input).1 is Ok ==> sem_intrinsic(fuel, st, which, args, input).0.scopes.len() == st.scopes.len(),
        extends(st.effects, sem_intrinsic(fuel, st, which, args, input).0.effects),
    decreases fuel, 0int, args, 2int,
{
    lemma_builtin_args_depth(fuel, st, args, input);
}

/// Evaluating the first four arguments of a built-in, one after another,
/// keeps the depth at every successful step.
pub proof fn lemma_builtin_args_depth(fuel: nat, st: SState, args: Seq<SpecExpr>, input: u8)
    ensures
        ({
            let (s1, r0) = sem_arg(fuel, st, args, 0, input);
            let (s2, r1) = sem_arg(fuel, s1, args, 1, input);
            let (s3, r2) = sem_arg(fuel, s2, args, 2, input);
            let (s4, r3) = sem_arg(fuel, s3, args, 3, input);
            &&& r0 is Ok ==> s1.scopes.len() == st.scopes.len()
            &&& r0 is Ok && r1 is Ok ==> s2.scopes.len() == st.scopes.len()
            &&& r0 is Ok && r1 is Ok && r2 is Ok ==> s3.scopes.len() == st.scopes.len()
            &&& r0 is Ok && r1 is Ok && r2 is Ok && r3 is Ok ==> s4.scopes.len() == st.scopes.len()
            &&& extends(st.effects, s1.effects)
            &&& extends(s1.effects, s2.effects)
            &&& extends(s2.effects, s3.effects)
            &&& extends(s3.effects, s4.effects)
        }),
    decreases fuel, 0int, args, 1int,
{
    let (s1, r0) = sem_arg(fuel, st, args, 0, input);
    let (s2, r1) = sem_arg(fuel, s1, args, 1, input);
    let (s3, r2) = sem_arg(fuel, s2, args, 2, input);
    lemma_arg_depth(fuel, st, args, 0, input);
    lemma_arg_depth(fuel, s1, args, 1, input);
    lemma_arg_depth(fuel, s2, args, 2, input);
    lemma_arg_depth(fuel, s3, args, 3, input);
}

pub proof fn lemma_body_depth(fuel: nat, st: SState, stmts: Seq<SpecStmt>, k: int, input: u8)
    ensures
        sem_body(fuel, st, stmts, k, input).1 is Ok ==> sem_body(fuel, st, stmts, k, input).0.scopes.len() == st.scopes.len(),
        extends(st.effects, sem_body(fuel, st, stmts, k, input).0.effects),
    decreases fuel, 1int, stmts, stmts.len() - k,
{
    if 0 <= k < stmts.len() {
        lemma_stmt_depth(fuel, st, stmts[k], input);
        let (s1, r) = sem_stmt(fuel, st, stmts[k], input);
        if r == Ok::<Option<SpecValue>, SpecError>(None) {
            lemma_body_depth(fuel, s1, stmts, k + 1, input);
        }
    }
}

pub proof fn lemma_stmt_depth(fuel: nat, st: SState, s: SpecStmt, input: u8)
    ensures
        sem_stmt(fuel, st, s, input).1 is Ok ==> sem_stmt(fuel, st, s, input).0.scopes.len() == st.scopes.len(),
        extends(st.effects, sem_stmt(fuel, st, s, input).0.effects),
    decreases fuel, 1int, s, 1int,
{
    match s {
        SpecStmt::Bind(b) => lemma_expr_depth(fuel, st, b.expr, input),
        SpecStmt::Assn(n, e) => {
            lemma_expr_depth(fuel, st, e, input);
            let (s1, r) = sem_expr(fuel, st, e, input);
            if let Ok(v) = r {
                lemma_assign_depth(s1.scopes, single(n), SpecBinding::Value(true, v));
            }
        },
        SpecStmt::Call(c) => lemma_call_depth(fuel, st, c, input),
        SpecStmt::Cond(c, body) => {
            lemma_expr_depth(fuel, st, c, input);
            let s1 = sem_expr(fuel, st, c, input).0;
            lemma_body_depth(fuel, s1, body, 0, input);
        },
        SpecStmt::Loop(c, body) => lemma_loop_depth(fuel, st, c, body, input),
        SpecStmt::Ret(Some(e)) => lemma_expr_depth(fuel, st, e, input),
        _ => {},
    }
}

pub proof fn lemma_loop_depth(fuel: nat, st: SState, c: SpecExpr, body: Seq<SpecStmt>, input: u8)
    ensures
        sem_loop(fuel, st, c, body, input).1 is Ok ==> sem_loop(fuel, st, c, body, input).0.scopes.len() == st.scopes.len(),
        extends(st.effects, sem_loop(fuel, st, c, body, input).0.effects),
    decreases fuel, 1int, body, 0int,
{
    if fuel > 0 {
        let f1 = (fuel - 1) as nat;
        lemma_expr_depth(f1, st, c, input);
        let s1 = sem_expr(f1, st, c, input).0;
        lemma_body_depth(f1, s1, body, 0, input);
        let s2 = sem_body(f1, s1, body, 0, input).0;
        lemma_loop_depth(f1, s2, c, body, input);
    }
}

} // verus!

verus! {

// ---------------------------------------------------------------------
// Starting a program and rendering a frame.

/// The number of steps (function calls and loop iterations, counted along
/// one branch of evaluation) after which evaluation reports `Exhausted`.
pub const STEP_LIMIT: u64 = 18446744073709551615;

/// A path of two identifiers.
pub open spec fn path2(a: Seq<char>, b: Seq<char>) -> SpecPath {
    seq![a, b]
}

/// The top scope with the built-in names added.
pub open spec fn install_builtins(m: Map<SpecPath, SpecBinding>) -> Map<SpecPath, SpecBinding> {
    m.insert(path2("Window"@, "draw"@), SpecBinding::Intrinsic(Intrinsic::Draw))
        .insert(path2("Input"@, "pressed"@), SpecBinding::Intrinsic(Intrinsic::Pressed))
        .insert(path2("Window"@, "load_tilemap"@), SpecBinding::Intrinsic(Intrinsic::LoadTilemap))
        .insert(path2("Input"@, "RIGHT"@), SpecBinding::Value(false, SpecValue::Num(0)))
        .insert(path2("Input"@, "LEFT"@), SpecBinding::Value(false, SpecValue::Num(1)))
        .insert(path2("Input"@, "DOWN"@), SpecBinding::Value(false, SpecValue::Num(2)))
        .insert(path2("Input"@, "UP"@), SpecBinding::Value(false, SpecValue::Num(3)))
        .insert(path2("Input"@, "BUTTON_ONE"@), SpecBinding::Value(false, SpecValue::Num(4)))
        .insert(path2("Input"@, "BUTTON_TWO"@), SpecBinding::Value(false, SpecValue::Num(5)))
        .insert(path2("Array"@, "get"@), SpecBinding::Intrinsic(Intrinsic::ArrayGet))
        .insert(path2("Array"@, "set"@), SpecBinding::Intrinsic(Intrinsic::ArraySet))
        .insert(path2("String"@, "char_code"@), SpecBinding::Intrinsic(Intrinsic::CharCode))
}

/// Runs a top-level item: a binding is evaluated as a binding statement
/// with no buttons pressed; a function definition is bound.
pub open spec fn sem_item(fuel: nat, st: SState, item: SpecItem) -> (SState, Result<Option<SpecValue>, SpecError>) {
    match item {
        SpecItem::Bind(_, b) => sem_stmt(fuel, st, SpecStmt::Bind(b), 0),
        SpecItem::Func(_, f) => sem_stmt(fuel, st, SpecStmt::Func(f), 0),
    }
}

/// Runs the items of a file from position `k`.
pub open spec fn sem_items(fuel: nat, st: SState, items: Seq<SpecItem>, k: int) -> (SState, Result<Option<SpecValue>, SpecError>)
    decreases items.len() - k,
{
    if 0 <= k < items.len() {
        let (s1, r) = sem_item(fuel, st, items[k]);
        match r {
            Err(x) => (s1, Err(x)),
            Ok(_) => sem_items(fuel, s1, items, k + 1),
        }
    } else {
        (st, Ok(None))
    }
}

/// The state in which a program starts.
pub open spec fn initial_state(log: Seq<SpecEffect>) -> SState {
    SState { scopes: seq![Map::empty()], effects: log }
}

/// Prepares a program: runs its items in one scope, then adds the
/// built-in names to that scope.
pub open spec fn sem_prepare(items: Seq<SpecItem>, log: Seq<SpecEffect>) -> (SState, Result<Option<SpecValue>, SpecError>) {
    let (s, r) = sem_items(STEP_LIMIT as nat, initial_state(log), items, 0);
    match r {
        Err(x) => (s, Err(x)),
        Ok(_) => (
            with_scopes(s, s.scopes.update(s.scopes.len() - 1, install_builtins(s.scopes.last()))),
            Ok(None),
        ),
    }
}

/// The frame in which `render` runs: its first parameter bound to the
/// window and its second to the input, unless named `_`.
pub open spec fn render_frame(params: Seq<(Seq<char>, SpecPath)>) -> Map<SpecPath, SpecBinding> {
    let f0 = Map::<SpecPath, SpecBinding>::empty();
    let f1 = if params[0].0 != "_"@ {
        f0.insert(single(params[0].0), SpecBinding::Value(false, SpecValue::Window))
    } else {
        f0
    };
    if params[1].0 != "_"@ {
        f1.insert(single(params[1].0), SpecBinding::Value(false, SpecValue::Input))
    } else {
        f1
    }
}

/// Renders one frame: calls the program's `render(window: Window, input:
/// Input)` function, if it has one of that shape, with the given buttons.
pub open spec fn sem_render(st: SState, input: u8) -> (SState, Result<Option<SpecValue>, SpecError>) {
    match lookup(st.scopes, single("render"@)) {
        Some(SpecBinding::Func(f)) => if f.params.len() >= 2 && f.params[0].1 == single("Window"@)
            && f.params[1].1 == single("Input"@) {
            let s1 = with_scopes(st, st.scopes.push(render_frame(f.params)));
            let (s2, r) = sem_body(STEP_LIMIT as nat, s1, f.body, 0, input);
            match r {
                Err(x) => (s2, Err(x)),
                Ok(_) => (with_scopes(s2, s2.scopes.drop_last()), Ok(None)),
            }
        } else {
            (st, Ok(None))
        },
        _ => (st, Ok(None)),
    }
}


/// Running the items of a file only adds to the record of host requests,
/// and leaves as many scopes as it found when it succeeds.
pub proof fn lemma_items_effects(fuel: nat, st: SState, items: Seq<SpecItem>, k: int)
    ensures
        extends(st.effects, sem_items(fuel, st, items, k).0.effects),
        sem_items(fuel, st, items, k).1 is Ok ==> sem_items(fuel, st, items, k).0.scopes.len()
            == st.scopes.len(),
    decreases items.len() - k,
{
    if 0 <= k < items.len() {
        match items[k] {
            SpecItem::Bind(_, b) => lemma_stmt_depth(fuel, st, SpecStmt::Bind(b), 0),
            SpecItem::Func(_, f) => lemma_stmt_depth(fuel, st, SpecStmt::Func(f), 0),
        }
        let (s1, r) = sem_item(fuel, st, items[k]);
        if r is Ok {
            lemma_items_effects(fuel, s1, items, k + 1);
        }
    }
}

/// Preparing a program that succeeds leaves exactly one scope, the
/// program's global scope with the built-ins in it.
pub proof fn law_prepare_one_scope(items: Seq<SpecItem>, log: Seq<SpecEffect>)
    ensures
        sem_prepare(items, log).1 is Ok ==> sem_prepare(items, log).0.scopes.len() == 1,
        sem_prepare(items, log).1 is Ok ==> sem_prepare(items, log).0.scopes[0] == install_builtins(
            sem_items(STEP_LIMIT as nat, initial_state(log), items, 0).0.scopes[0],
        ),
        extends(log, sem_prepare(items, log).0.effects),
{
    lemma_items_effects(STEP_LIMIT as nat, initial_state(log), items, 0);
}

/// Rendering a frame only adds to the record of requests made of the host,
/// and leaves as many scopes as it found when it succeeds: every frame
/// starts from the program's global state.
pub proof fn law_render_appends(st: SState, input: u8)
    ensures
        extends(st.effects, sem_render(st, input).0.effects),
        sem_render(st, input).1 is Ok ==> sem_render(st, input).0.scopes.len() == st.scopes.len(),
{
    match lookup(st.scopes, single("render"@)) {
        Some(SpecBinding::Func(f)) => {
            if f.params.len() >= 2 && f.params[0].1 == single("Window"@) && f.params[1].1 == single(
                "Input"@,
            ) {
                let s1 = with_scopes(st, st.scopes.push(render_frame(f.params)));
                lemma_body_depth(STEP_LIMIT as nat, s1, f.body, 0, input);
            }
        },
        _ => {},
    }
}

} // verus!
