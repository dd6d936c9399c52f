//! What the operators, the built-ins, statements, calls and the start of a
//! program compute, stated in terms of their inputs: integer arithmetic on
//! the numbers, the bits of the input state, the elements of arrays, the
//! parameters of a call, what a binding reads back, and the numbers of the
//! buttons.
use vstd::prelude::*;
use vstd::arithmetic::power2::{lemma2_to64, pow2};
use vstd::utf8::{encode_utf8, is_ascii_chars, is_ascii_chars_encode_utf8};
use crate::grammar::{make_binary, op_at, BinOp};
use crate::laws::{compares, is_comparison};
use crate::semantics::{
    binary_op, initial_state, install_builtins, law_prepare_one_scope, num_op, operands, path2,
    render_frame, sem_args, sem_body, sem_expr, sem_intrinsic, sem_items, sem_operands, sem_prepare,
    sem_prim, sem_stmt, single, SState, STEP_LIMIT,
};
use crate::scope::{assign, bind_top, lookup};
use crate::syntax::{SpecBind, SpecExpr, SpecItem, SpecPath, SpecPrim, SpecStmt};
use crate::value::{Intrinsic, SpecBinding, SpecEffect, SpecError, SpecValue};

verus! {

/// The result of an arithmetic operation whose exact value is `v`: that
/// number when it fits in `isize`, and an overflow otherwise.
pub open spec fn checked(v: int) -> Result<SpecValue, SpecError> {
    if isize::MIN <= v && v <= isize::MAX {
        Ok(SpecValue::Num(v as isize))
    } else {
        Err(SpecError::Overflow)
    }
}

/// Evaluating a binary node of two numeric literals evaluates both
/// literals and applies the operator; the state is left as it was.
proof fn lemma_literal_operands(fuel: nat, st: SState, e: SpecExpr, a: isize, b: isize, input: u8)
    requires
        !(e is Prim || e is Comp || e is BitNot),
        operands(e) == (SpecPrim::Num(a), SpecPrim::Num(b)),
    ensures
        sem_expr(fuel, st, e, input) == (st, binary_op(e, SpecValue::Num(a), SpecValue::Num(b))),
{
    assert(sem_prim(fuel, st, SpecPrim::Num(a), input) == (st, Ok::<SpecValue, SpecError>(SpecValue::Num(a))));
    assert(sem_prim(fuel, st, SpecPrim::Num(b), input) == (st, Ok::<SpecValue, SpecError>(SpecValue::Num(b))));
    assert(sem_operands(fuel, st, e, input) == (
        st,
        Ok::<(SpecValue, SpecValue), SpecError>((SpecValue::Num(a), SpecValue::Num(b))),
    ));
}

/// `a + b`, `a - b` and `a * b` on two numbers are their sum, difference
/// and product when these fit in `isize`, and an overflow otherwise; the
/// state is left as it was.
pub proof fn law_arithmetic(fuel: nat, st: SState, a: isize, b: isize, input: u8)
    ensures
        sem_expr(fuel, st, SpecExpr::Add(SpecPrim::Num(a), SpecPrim::Num(b)), input) == (st, checked(a + b)),
        sem_expr(fuel, st, SpecExpr::Sub(SpecPrim::Num(a), SpecPrim::Num(b)), input) == (st, checked(a - b)),
        sem_expr(fuel, st, SpecExpr::Mul(SpecPrim::Num(a), SpecPrim::Num(b)), input) == (st, checked(a * b)),
{
    reveal(binary_op);
    reveal(num_op);
    lemma_literal_operands(fuel, st, SpecExpr::Add(SpecPrim::Num(a), SpecPrim::Num(b)), a, b, input);
    lemma_literal_operands(fuel, st, SpecExpr::Sub(SpecPrim::Num(a), SpecPrim::Num(b)), a, b, input);
    lemma_literal_operands(fuel, st, SpecExpr::Mul(SpecPrim::Num(a), SpecPrim::Num(b)), a, b, input);
}

/// On a non-negative dividend and a positive divisor, `/` and `%` are the
/// quotient and the remainder of integer division: `a == q * b + r` with
/// `0 <= r < b`. A zero divisor is reported as such.
pub proof fn law_division(fuel: nat, st: SState, a: isize, b: isize, input: u8)
    ensures
        a >= 0 && b > 0 ==> ({
            let q = sem_expr(fuel, st, SpecExpr::Div(SpecPrim::Num(a), SpecPrim::Num(b)), input);
            let r = sem_expr(fuel, st, SpecExpr::Mod(SpecPrim::Num(a), SpecPrim::Num(b)), input);
            &&& q.0 == st && r.0 == st
            &&& q.1 matches Ok(SpecValue::Num(qv)) && r.1 matches Ok(SpecValue::Num(rv))
                && a == qv * b + rv && 0 <= rv < b
        }),
        b == 0 ==> sem_expr(fuel, st, SpecExpr::Div(SpecPrim::Num(a), SpecPrim::Num(b)), input) == (
            st,
            Err::<SpecValue, SpecError>(SpecError::DivisionByZero),
        ),
        b == 0 ==> sem_expr(fuel, st, SpecExpr::Mod(SpecPrim::Num(a), SpecPrim::Num(b)), input) == (
            st,
            Err::<SpecValue, SpecError>(SpecError::DivisionByZero),
        ),
{
    reveal(binary_op);
    reveal(num_op);
    lemma_literal_operands(fuel, st, SpecExpr::Div(SpecPrim::Num(a), SpecPrim::Num(b)), a, b, input);
    lemma_literal_operands(fuel, st, SpecExpr::Mod(SpecPrim::Num(a), SpecPrim::Num(b)), a, b, input);
    if a >= 0 && b > 0 {
        let q = a as int / b as int;
        let r = a as int % b as int;
        assert(a == q * b + r && 0 <= r < b) by (nonlinear_arith)
            requires
                a >= 0,
                b > 0,
                q == a as int / b as int,
                r == a as int % b as int,
        ;
        assert(0 <= q <= a) by (nonlinear_arith)
            requires
                a >= 0,
                b > 0,
                q == a as int / b as int,
        ;
    }
}

/// `!x` on a number is `-1 - x` (all bits flipped); `a & b` and `a | b`
/// keep the bits set in both and in either.
pub proof fn law_bitwise(fuel: nat, st: SState, a: isize, b: isize, input: u8)
    ensures
        sem_expr(fuel, st, SpecExpr::BitNot(SpecPrim::Num(a)), input) == (
            st,
            Ok::<SpecValue, SpecError>(SpecValue::Num((-1 - a) as isize)),
        ),
        sem_expr(fuel, st, SpecExpr::BitAnd(SpecPrim::Num(a), SpecPrim::Num(b)), input) matches (
            s,
            Ok(SpecValue::Num(v)),
        ) && s == st && v & a == v && v & b == v && (v | (a & b)) == v && (a & b) == v,
        sem_expr(fuel, st, SpecExpr::BitOrr(SpecPrim::Num(a), SpecPrim::Num(b)), input) matches (
            s,
            Ok(SpecValue::Num(v)),
        ) && s == st && (v | a) == v && (v | b) == v && (a | b) == v,
{
    reveal(binary_op);
    reveal(num_op);
    lemma_literal_operands(fuel, st, SpecExpr::BitAnd(SpecPrim::Num(a), SpecPrim::Num(b)), a, b, input);
    lemma_literal_operands(fuel, st, SpecExpr::BitOrr(SpecPrim::Num(a), SpecPrim::Num(b)), a, b, input);
    assert(sem_prim(fuel, st, SpecPrim::Num(a), input) == (st, Ok::<SpecValue, SpecError>(SpecValue::Num(a))));
    let n = !a;
    assert(n == -1 - a) by (bit_vector)
        requires
            n == !a,
    ;
    let v = a & b;
    assert(v & a == v && v & b == v && (v | (a & b)) == v) by (bit_vector)
        requires
            v == a & b,
    ;
    let w = a | b;
    assert((w | a) == w && (w | b) == w) by (bit_vector)
        requires
            w == a | b,
    ;
}

/// The boolean operators on two booleans are conjunction and disjunction,
/// and `!` on a boolean is its negation; on numbers they are invalid.
pub proof fn law_boolean(fuel: nat, st: SState, x: bool, y: bool, a: isize, b: isize, input: u8)
    ensures
        sem_expr(fuel, st, SpecExpr::And(SpecPrim::Bool(x), SpecPrim::Bool(y)), input) == (
            st,
            Ok::<SpecValue, SpecError>(SpecValue::Bool(x && y)),
        ),
        sem_expr(fuel, st, SpecExpr::Orr(SpecPrim::Bool(x), SpecPrim::Bool(y)), input) == (
            st,
            Ok::<SpecValue, SpecError>(SpecValue::Bool(x || y)),
        ),
        sem_expr(fuel, st, SpecExpr::Comp(SpecPrim::Bool(x)), input) == (
            st,
            Ok::<SpecValue, SpecError>(SpecValue::Bool(!x)),
        ),
        sem_expr(fuel, st, SpecExpr::And(SpecPrim::Num(a), SpecPrim::Num(b)), input) == (
            st,
            Err::<SpecValue, SpecError>(SpecError::Invalid),
        ),
        sem_expr(fuel, st, SpecExpr::Orr(SpecPrim::Num(a), SpecPrim::Num(b)), input) == (
            st,
            Err::<SpecValue, SpecError>(SpecError::Invalid),
        ),
{
    reveal(binary_op);
    reveal(num_op);
    let and = SpecExpr::And(SpecPrim::Bool(x), SpecPrim::Bool(y));
    let orr = SpecExpr::Orr(SpecPrim::Bool(x), SpecPrim::Bool(y));
    assert(sem_prim(fuel, st, SpecPrim::Bool(x), input) == (st, Ok::<SpecValue, SpecError>(SpecValue::Bool(x))));
    assert(sem_prim(fuel, st, SpecPrim::Bool(y), input) == (st, Ok::<SpecValue, SpecError>(SpecValue::Bool(y))));
    assert(sem_operands(fuel, st, and, input) == (
        st,
        Ok::<(SpecValue, SpecValue), SpecError>((SpecValue::Bool(x), SpecValue::Bool(y))),
    ));
    assert(sem_operands(fuel, st, orr, input) == (
        st,
        Ok::<(SpecValue, SpecValue), SpecError>((SpecValue::Bool(x), SpecValue::Bool(y))),
    ));
    lemma_literal_operands(fuel, st, SpecExpr::And(SpecPrim::Num(a), SpecPrim::Num(b)), a, b, input);
    lemma_literal_operands(fuel, st, SpecExpr::Orr(SpecPrim::Num(a), SpecPrim::Num(b)), a, b, input);
}

/// What each operator that the parser builds from `l op r` computes on
/// two numbers (`&&` and `||` on two booleans): the parser's choice of
/// node and the evaluator's meaning of it together give the usual
/// operation.
pub proof fn law_parsed_operators(
    fuel: nat,
    st: SState,
    op: BinOp,
    a: isize,
    b: isize,
    x: bool,
    y: bool,
    input: u8,
)
    ensures
        op is Add ==> sem_expr(fuel, st, make_binary(op, SpecPrim::Num(a), SpecPrim::Num(b)), input)
            == (st, checked(a + b)),
        op is Sub ==> sem_expr(fuel, st, make_binary(op, SpecPrim::Num(a), SpecPrim::Num(b)), input)
            == (st, checked(a - b)),
        op is Mul ==> sem_expr(fuel, st, make_binary(op, SpecPrim::Num(a), SpecPrim::Num(b)), input)
            == (st, checked(a * b)),
        op is BitAnd ==> sem_expr(fuel, st, make_binary(op, SpecPrim::Num(a), SpecPrim::Num(b)), input)
            == sem_expr(fuel, st, SpecExpr::BitAnd(SpecPrim::Num(a), SpecPrim::Num(b)), input),
        op is BitOrr ==> sem_expr(fuel, st, make_binary(op, SpecPrim::Num(a), SpecPrim::Num(b)), input)
            == sem_expr(fuel, st, SpecExpr::BitOrr(SpecPrim::Num(a), SpecPrim::Num(b)), input),
        is_comparison(op) ==> sem_expr(
            fuel,
            st,
            make_binary(op, SpecPrim::Num(a), SpecPrim::Num(b)),
            input,
        ) == (st, Ok::<SpecValue, SpecError>(SpecValue::Bool(compares(op, a, b)))),
        op is And ==> sem_expr(fuel, st, make_binary(op, SpecPrim::Bool(x), SpecPrim::Bool(y)), input)
            == (st, Ok::<SpecValue, SpecError>(SpecValue::Bool(x && y))),
        op is Orr ==> sem_expr(fuel, st, make_binary(op, SpecPrim::Bool(x), SpecPrim::Bool(y)), input)
            == (st, Ok::<SpecValue, SpecError>(SpecValue::Bool(x || y))),
{
    law_arithmetic(fuel, st, a, b, input);
    law_boolean(fuel, st, x, y, a, b, input);
    if is_comparison(op) {
        reveal(binary_op);
        reveal(num_op);
        lemma_literal_operands(fuel, st, make_binary(op, SpecPrim::Num(a), SpecPrim::Num(b)), a, b, input);
    }
}

/// Whether bit `b` of the button state `input` is set: the `b`-th binary
/// digit of the number, counting from the least significant.
pub open spec fn bit_set(input: u8, b: int) -> bool {
    (input as int / pow2(b as nat) as int) % 2 == 1
}

/// The mask test that the evaluator performs for a button reads exactly
/// the button's binary digit of the input state.
proof fn lemma_mask_reads_bit(input: u8, b: isize)
    requires
        0 <= b <= 5,
    ensures
        (input & (1u8 << (b as u8)) != 0) == bit_set(input, b as int),
{
    lemma2_to64();
    if b == 0 {
        assert((input & (1u8 << 0u8) != 0) == ((input / 1u8) % 2u8 == 1u8)) by (bit_vector);
    } else if b == 1 {
        assert((input & (1u8 << 1u8) != 0) == ((input / 2u8) % 2u8 == 1u8)) by (bit_vector);
    } else if b == 2 {
        assert((input & (1u8 << 2u8) != 0) == ((input / 4u8) % 2u8 == 1u8)) by (bit_vector);
    } else if b == 3 {
        assert((input & (1u8 << 3u8) != 0) == ((input / 8u8) % 2u8 == 1u8)) by (bit_vector);
    } else if b == 4 {
        assert((input & (1u8 << 4u8) != 0) == ((input / 16u8) % 2u8 == 1u8)) by (bit_vector);
    } else {
        assert((input & (1u8 << 5u8) != 0) == ((input / 32u8) % 2u8 == 1u8)) by (bit_vector);
    }
}

/// `Input.pressed(input, button)`: once its first argument gives the
/// input and its second a button number `b`, the answer is whether bit
/// `b` of the current button state is set, for `0 <= b <= 5`, whatever
/// the other bits hold; any other number is invalid. Nothing is asked of
/// the host.
pub proof fn law_pressed_reads_bit(
    fuel: nat,
    st: SState,
    args: Seq<SpecExpr>,
    s1: SState,
    s2: SState,
    b: isize,
    input: u8,
)
    requires
        args.len() >= 2,
        sem_expr(fuel, st, args[0], input) == (s1, Ok::<SpecValue, SpecError>(SpecValue::Input)),
        sem_expr(fuel, s1, args[1], input) == (s2, Ok::<SpecValue, SpecError>(SpecValue::Num(b))),
    ensures
        0 <= b <= 5 ==> sem_intrinsic(fuel, st, Intrinsic::Pressed, args, input) == (
            s2,
            Ok::<SpecValue, SpecError>(SpecValue::Bool(bit_set(input, b as int))),
        ),
        !(0 <= b <= 5) ==> sem_intrinsic(fuel, st, Intrinsic::Pressed, args, input) == (
            s2,
            Err::<SpecValue, SpecError>(SpecError::Invalid),
        ),
{
    if 0 <= b <= 5 {
        lemma_mask_reads_bit(input, b);
    }
}

/// Two button states that agree on bit `b` give `Input.pressed` the same
/// answer for button `b`: the other buttons play no part.
pub proof fn law_pressed_ignores_other_bits(
    fuel: nat,
    st: SState,
    args: Seq<SpecExpr>,
    s1: SState,
    s2: SState,
    b: isize,
    input: u8,
    other: u8,
)
    requires
        args.len() >= 2,
        0 <= b <= 5,
        bit_set(input, b as int) == bit_set(other, b as int),
        sem_expr(fuel, st, args[0], input) == (s1, Ok::<SpecValue, SpecError>(SpecValue::Input)),
        sem_expr(fuel, s1, args[1], input) == (s2, Ok::<SpecValue, SpecError>(SpecValue::Num(b))),
        sem_expr(fuel, st, args[0], other) == (s1, Ok::<SpecValue, SpecError>(SpecValue::Input)),
        sem_expr(fuel, s1, args[1], other) == (s2, Ok::<SpecValue, SpecError>(SpecValue::Num(b))),
    ensures
        sem_intrinsic(fuel, st, Intrinsic::Pressed, args, input) == sem_intrinsic(
            fuel,
            st,
            Intrinsic::Pressed,
            args,
            other,
        ),
{
    law_pressed_reads_bit(fuel, st, args, s1, s2, b, input);
    law_pressed_reads_bit(fuel, st, args, s1, s2, b, other);
}

/// Whether `p` is the path of one of the parameters at positions
/// `k .. n`.
pub open spec fn names_param(params: Seq<(Seq<char>, SpecPath)>, k: int, n: int, p: SpecPath) -> bool {
    exists|j: int| k <= j < n && p == #[trigger] single(params[j].0)
}

/// Whether no two parameters share a name.
pub open spec fn distinct_names(params: Seq<(Seq<char>, SpecPath)>) -> bool {
    forall|i: int, j: int|
        0 <= i < params.len() && 0 <= j < params.len() && i != j ==> #[trigger] params[i].0
            != #[trigger] params[j].0
}

/// The number of parameters that receive an argument.
pub open spec fn bound_count(params: Seq<(Seq<char>, SpecPath)>, args: Seq<SpecExpr>) -> int {
    if params.len() <= args.len() { params.len() as int } else { args.len() as int }
}

/// From position `k` on, each parameter gets the value of its argument;
/// the rest of the frame is left as it was.
proof fn lemma_args_bind(
    fuel: nat,
    st: SState,
    params: Seq<(Seq<char>, SpecPath)>,
    args: Seq<SpecExpr>,
    vals: Seq<SpecValue>,
    k: int,
    frame: Map<SpecPath, SpecBinding>,
    input: u8,
)
    requires
        0 <= k <= bound_count(params, args),
        vals.len() >= bound_count(params, args),
        distinct_names(params),
        forall|j: int| k <= j < bound_count(params, args) ==> #[trigger] sem_expr(fuel, st, args[j], input)
            == (st, Ok::<SpecValue, SpecError>(vals[j])),
    ensures
        ({
            let (s, r) = sem_args(fuel, st, params, args, k, frame, input);
            &&& s == st
            &&& r is Ok
            &&& forall|j: int| k <= j < bound_count(params, args) ==> {
                &&& r->Ok_0.contains_key(#[trigger] single(params[j].0))
                &&& r->Ok_0[single(params[j].0)] == SpecBinding::Value(false, vals[j])
            }
            &&& forall|p: SpecPath| !names_param(params, k, bound_count(params, args), p) ==> {
                &&& #[trigger] r->Ok_0.contains_key(p) == frame.contains_key(p)
                &&& frame.contains_key(p) ==> r->Ok_0[p] == frame[p]
            }
        }),
    decreases bound_count(params, args) - k,
{
    let n = bound_count(params, args);
    if k < n {
        let key = single(params[k].0);
        let f2 = frame.insert(key, SpecBinding::Value(false, vals[k]));
        assert(sem_expr(fuel, st, args[k], input) == (st, Ok::<SpecValue, SpecError>(vals[k])));
        lemma_args_bind(fuel, st, params, args, vals, k + 1, f2, input);
        let r = sem_args(fuel, st, params, args, k, frame, input).1->Ok_0;
        assert(sem_args(fuel, st, params, args, k, frame, input) == sem_args(fuel, st, params, args, k + 1, f2, input));
        assert(!names_param(params, k + 1, n, key)) by {
            if names_param(params, k + 1, n, key) {
                let j = choose|j: int| k + 1 <= j < n && key == #[trigger] single(params[j].0);
                assert(single(params[j].0)[0] == params[j].0);
                assert(key[0] == params[k].0);
            }
        }
        assert forall|p: SpecPath| !names_param(params, k, n, p) implies {
            &&& #[trigger] r.contains_key(p) == frame.contains_key(p)
            &&& frame.contains_key(p) ==> r[p] == frame[p]
        } by {
            assert(p != key) by {
                if p == key {
                    assert(k <= k < n && p == single(params[k].0));
                }
            }
            if names_param(params, k + 1, n, p) {
                let j = choose|j: int| k + 1 <= j < n && p == #[trigger] single(params[j].0);
                assert(k <= j < n && p == single(params[j].0));
            }
        }
    }
}

/// A call binds each parameter to the value of its argument, position by
/// position, as far as both lists reach: with distinct parameter names and
/// arguments that evaluate without side effects, the frame maps the path
/// of parameter `j`'s name to `Value(false, v_j)`, where `v_j` is the value
/// of argument `j`, and holds nothing else.
pub proof fn law_call_binds_parameters(
    fuel: nat,
    st: SState,
    params: Seq<(Seq<char>, SpecPath)>,
    args: Seq<SpecExpr>,
    vals: Seq<SpecValue>,
    input: u8,
)
    requires
        vals.len() >= bound_count(params, args),
        distinct_names(params),
        forall|j: int| 0 <= j < bound_count(params, args) ==> #[trigger] sem_expr(fuel, st, args[j], input)
            == (st, Ok::<SpecValue, SpecError>(vals[j])),
    ensures
        ({
            let (s, r) = sem_args(fuel, st, params, args, 0, Map::empty(), input);
            &&& s == st
            &&& r is Ok
            &&& forall|j: int| 0 <= j < bound_count(params, args) ==> {
                &&& r->Ok_0.contains_key(#[trigger] single(params[j].0))
                &&& r->Ok_0[single(params[j].0)] == SpecBinding::Value(false, vals[j])
            }
            &&& forall|p: SpecPath| #[trigger] r->Ok_0.contains_key(p) ==> names_param(
                params,
                0,
                bound_count(params, args),
                p,
            )
        }),
{
    lemma_args_bind(fuel, st, params, args, vals, 0, Map::empty(), input);
}

/// Whether a scope binds the built-in names: the six buttons `RIGHT`,
/// `LEFT`, `DOWN`, `UP`, `BUTTON_ONE` and `BUTTON_TWO` of `Input` to the
/// bit numbers 0 to 5, in that order, and the intrinsics to their names.
pub open spec fn binds_builtins(m: Map<SpecPath, SpecBinding>) -> bool {
    let button = |n: isize| SpecBinding::Value(false, SpecValue::Num(n));
    &&& m.contains_key(path2("Input"@, "RIGHT"@)) && m[path2("Input"@, "RIGHT"@)] == button(0)
    &&& m.contains_key(path2("Input"@, "LEFT"@)) && m[path2("Input"@, "LEFT"@)] == button(1)
    &&& m.contains_key(path2("Input"@, "DOWN"@)) && m[path2("Input"@, "DOWN"@)] == button(2)
    &&& m.contains_key(path2("Input"@, "UP"@)) && m[path2("Input"@, "UP"@)] == button(3)
    &&& m.contains_key(path2("Input"@, "BUTTON_ONE"@)) && m[path2("Input"@, "BUTTON_ONE"@)]
        == button(4)
    &&& m.contains_key(path2("Input"@, "BUTTON_TWO"@)) && m[path2("Input"@, "BUTTON_TWO"@)]
        == button(5)
    &&& m.contains_key(path2("Input"@, "pressed"@)) && m[path2("Input"@, "pressed"@)]
        == SpecBinding::Intrinsic(Intrinsic::Pressed)
    &&& m.contains_key(path2("Window"@, "draw"@)) && m[path2("Window"@, "draw"@)]
        == SpecBinding::Intrinsic(Intrinsic::Draw)
    &&& m.contains_key(path2("Window"@, "load_tilemap"@)) && m[path2("Window"@, "load_tilemap"@)]
        == SpecBinding::Intrinsic(Intrinsic::LoadTilemap)
    &&& m.contains_key(path2("Array"@, "get"@)) && m[path2("Array"@, "get"@)]
        == SpecBinding::Intrinsic(Intrinsic::ArrayGet)
    &&& m.contains_key(path2("Array"@, "set"@)) && m[path2("Array"@, "set"@)]
        == SpecBinding::Intrinsic(Intrinsic::ArraySet)
    &&& m.contains_key(path2("String"@, "char_code"@)) && m[path2("String"@, "char_code"@)]
        == SpecBinding::Intrinsic(Intrinsic::CharCode)
}

/// Adding the built-ins to any scope binds every built-in name, whatever
/// the scope held before: the buttons to 0, 1, 2, 3, 4, 5 and the
/// intrinsics to their operations.
pub proof fn law_builtins_installed(m: Map<SpecPath, SpecBinding>)
    ensures
        binds_builtins(install_builtins(m)),
{
    reveal_strlit("Input");
    reveal_strlit("Window");
    reveal_strlit("Array");
    reveal_strlit("String");
    reveal_strlit("RIGHT");
    reveal_strlit("LEFT");
    reveal_strlit("DOWN");
    reveal_strlit("UP");
    reveal_strlit("BUTTON_ONE");
    reveal_strlit("BUTTON_TWO");
    reveal_strlit("pressed");
    reveal_strlit("draw");
    reveal_strlit("load_tilemap");
    reveal_strlit("get");
    reveal_strlit("set");
    reveal_strlit("char_code");
    assert forall|a1: Seq<char>, b1: Seq<char>, a2: Seq<char>, b2: Seq<char>|
        #[trigger] path2(a1, b1) == #[trigger] path2(a2, b2) implies a1 == a2 && b1 == b2 by {
        assert(path2(a1, b1)[0] == a1 && path2(a1, b1)[1] == b1);
        assert(path2(a2, b2)[0] == a2 && path2(a2, b2)[1] == b2);
    }
    let heads = seq!["Window"@, "Input"@, "Array"@, "String"@];
    assert forall|i: int, j: int| 0 <= i < j < 4 implies heads[i] != heads[j] by {
        assert(heads[i][0] != heads[j][0]);
    }
    let buttons = seq!["pressed"@, "RIGHT"@, "LEFT"@, "DOWN"@, "UP"@, "BUTTON_ONE"@, "BUTTON_TWO"@];
    assert forall|i: int, j: int| 0 <= i < j < 7 implies buttons[i] != buttons[j] by {
        if buttons[i].len() == buttons[j].len() {
            if buttons[i][0] == buttons[j][0] {
                assert(buttons[i][7] != buttons[j][7]);
            } else {
                assert(buttons[i][0] != buttons[j][0]);
            }
        }
    }
    assert("draw"@[0] != "load_tilemap"@[0]);
    assert("get"@[0] != "set"@[0]);
}

/// After a successful start, the program's one scope binds the built-in
/// names: `Input.RIGHT` .. `Input.BUTTON_TWO` are the buttons 0 .. 5, and
/// looking any of them up finds that binding.
pub proof fn law_start_binds_builtins(items: Seq<SpecItem>, log: Seq<SpecEffect>)
    ensures
        sem_prepare(items, log).1 is Ok ==> {
            let scopes = sem_prepare(items, log).0.scopes;
            &&& scopes.len() == 1
            &&& binds_builtins(scopes[0])
            &&& forall|p: SpecPath| #[trigger] scopes[0].contains_key(p) ==> lookup(scopes, p) == Some(
                scopes[0][p],
            )
        },
{
    law_prepare_one_scope(items, log);
    if sem_prepare(items, log).1 is Ok {
        let scopes = sem_prepare(items, log).0.scopes;
        law_builtins_installed(sem_items(STEP_LIMIT as nat, initial_state(log), items, 0).0.scopes[0]);
        assert forall|p: SpecPath| #[trigger] scopes[0].contains_key(p) implies lookup(scopes, p) == Some(
            scopes[0][p],
        ) by {
            assert(scopes.last() == scopes[0]);
        }
    }
}

/// Whether the two characters at `i` are `c0` then `c1`.
pub open spec fn pair_at(s: Seq<char>, i: int, c0: char, c1: char) -> bool {
    0 <= i && i + 1 < s.len() && s[i] == c0 && s[i + 1] == c1
}

/// Whether the character at `i` is `c` and the next one, if any, is not
/// `n`.
pub open spec fn lone_at(s: Seq<char>, i: int, c: char, n: char) -> bool {
    0 <= i < s.len() && s[i] == c && !(i + 1 < s.len() && s[i + 1] == n)
}

/// Which operator a spelling names: `+`, `-`, `*`; `==`, `!=`, `>=`, `<=`
/// and a lone `>` or `<`; `&&` and `||`; a lone `&` or `|`. Two-character
/// spellings win over their one-character prefixes. With
/// `law_parsed_operators`, the text `x || y` of two booleans means
/// `x || y`, and `a * b` of two numbers their product.
pub proof fn law_operator_spelling(s: Seq<char>, i: int)
    requires
        0 <= i < s.len(),
    ensures
        s[i] == '+' ==> op_at(s, i) == Some(BinOp::Add),
        s[i] == '-' ==> op_at(s, i) == Some(BinOp::Sub),
        s[i] == '*' ==> op_at(s, i) == Some(BinOp::Mul),
        pair_at(s, i, '=', '=') ==> op_at(s, i) == Some(BinOp::Eq),
        pair_at(s, i, '!', '=') ==> op_at(s, i) == Some(BinOp::Ne),
        pair_at(s, i, '>', '=') ==> op_at(s, i) == Some(BinOp::Ge),
        pair_at(s, i, '<', '=') ==> op_at(s, i) == Some(BinOp::Le),
        lone_at(s, i, '>', '=') ==> op_at(s, i) == Some(BinOp::Gt),
        lone_at(s, i, '<', '=') ==> op_at(s, i) == Some(BinOp::Lt),
        pair_at(s, i, '&', '&') ==> op_at(s, i) == Some(BinOp::And),
        pair_at(s, i, '|', '|') ==> op_at(s, i) == Some(BinOp::Orr),
        lone_at(s, i, '&', '&') ==> op_at(s, i) == Some(BinOp::BitAnd),
        lone_at(s, i, '|', '|') ==> op_at(s, i) == Some(BinOp::BitOrr),
{
    let one = s.subrange(i, i + 1);
    assert(one[0] == s[i]);
    assert(one =~= seq![s[i]]);
    if i + 1 < s.len() {
        let two = s.subrange(i, i + 2);
        assert(two[0] == s[i] && two[1] == s[i + 1]);
        assert(two =~= seq![s[i], s[i + 1]]);
    }
}

/// `Window.draw(window, tile, x, y)` asks the host, once, to draw the
/// tile numbered by its second argument at the column and row given by its
/// third and fourth, and gives `()`; the scopes are left as the arguments
/// left them.
pub proof fn law_draw_request(
    fuel: nat,
    st: SState,
    args: Seq<SpecExpr>,
    s1: SState,
    s2: SState,
    s3: SState,
    s4: SState,
    tile: isize,
    x: isize,
    y: isize,
    input: u8,
)
    requires
        args.len() >= 4,
        0 <= tile <= u32::MAX,
        0 <= x <= u32::MAX,
        0 <= y <= u32::MAX,
        sem_expr(fuel, st, args[0], input) == (s1, Ok::<SpecValue, SpecError>(SpecValue::Window)),
        sem_expr(fuel, s1, args[1], input) == (s2, Ok::<SpecValue, SpecError>(SpecValue::Num(tile))),
        sem_expr(fuel, s2, args[2], input) == (s3, Ok::<SpecValue, SpecError>(SpecValue::Num(x))),
        sem_expr(fuel, s3, args[3], input) == (s4, Ok::<SpecValue, SpecError>(SpecValue::Num(y))),
    ensures
        ({
            let (s, r) = sem_intrinsic(fuel, st, Intrinsic::Draw, args, input);
            &&& r == Ok::<SpecValue, SpecError>(SpecValue::Unit)
            &&& s.scopes == s4.scopes
            &&& s.effects.len() == s4.effects.len() + 1
            &&& s.effects.take(s4.effects.len() as int) == s4.effects
            &&& s.effects.last() matches SpecEffect::DrawTile(t, c, w) && t == tile && c == x && w == y
        }),
{
    let s = sem_intrinsic(fuel, st, Intrinsic::Draw, args, input).0;
    assert(s.effects.take(s4.effects.len() as int) =~= s4.effects);
}

/// `Window.load_tilemap(window, name)` asks the host, once, to load the
/// tiles named by its second argument, and gives `()`.
pub proof fn law_load_tilemap_request(
    fuel: nat,
    st: SState,
    args: Seq<SpecExpr>,
    s1: SState,
    s2: SState,
    name: Seq<char>,
    input: u8,
)
    requires
        args.len() >= 2,
        sem_expr(fuel, st, args[0], input) == (s1, Ok::<SpecValue, SpecError>(SpecValue::Window)),
        sem_expr(fuel, s1, args[1], input) == (s2, Ok::<SpecValue, SpecError>(SpecValue::Str(name))),
    ensures
        sem_intrinsic(fuel, st, Intrinsic::LoadTilemap, args, input) == (
            SState { scopes: s2.scopes, effects: s2.effects.push(SpecEffect::LoadTile(name)) },
            Ok::<SpecValue, SpecError>(SpecValue::Unit),
        ),
{
}

/// `Array.get(array, i)` is the element at position `i` for
/// `0 <= i < len`, an out-of-bounds error naming the length and the index
/// past the end, and invalid below zero.
pub proof fn law_array_get(
    fuel: nat,
    st: SState,
    args: Seq<SpecExpr>,
    s1: SState,
    s2: SState,
    items: Seq<SpecValue>,
    i: isize,
    input: u8,
)
    requires
        args.len() >= 2,
        sem_expr(fuel, st, args[0], input) == (s1, Ok::<SpecValue, SpecError>(SpecValue::Arr(items))),
        sem_expr(fuel, s1, args[1], input) == (s2, Ok::<SpecValue, SpecError>(SpecValue::Num(i))),
    ensures
        0 <= i < items.len() ==> sem_intrinsic(fuel, st, Intrinsic::ArrayGet, args, input) == (
            s2,
            Ok::<SpecValue, SpecError>(items[i as int]),
        ),
        i >= items.len() ==> sem_intrinsic(fuel, st, Intrinsic::ArrayGet, args, input) == (
            s2,
            Err::<SpecValue, SpecError>(
                SpecError::ArrayGetOutOfBounds(items.len() as usize, i as usize),
            ),
        ),
        i < 0 ==> sem_intrinsic(fuel, st, Intrinsic::ArrayGet, args, input) == (
            s2,
            Err::<SpecValue, SpecError>(SpecError::Invalid),
        ),
{
}

/// `Array.set(array, i, v)` for `0 <= i < len` gives an array of the same
/// length that holds `v` at `i` and the old element everywhere else: a
/// later `Array.get` at `i` on the result reads `v`, and at any other
/// position what was there before.
pub proof fn law_array_set_then_get(
    fuel: nat,
    st: SState,
    args: Seq<SpecExpr>,
    s1: SState,
    s2: SState,
    s3: SState,
    items: Seq<SpecValue>,
    i: isize,
    v: SpecValue,
    input: u8,
)
    requires
        args.len() >= 3,
        0 <= i < items.len(),
        sem_expr(fuel, st, args[0], input) == (s1, Ok::<SpecValue, SpecError>(SpecValue::Arr(items))),
        sem_expr(fuel, s1, args[1], input) == (s2, Ok::<SpecValue, SpecError>(SpecValue::Num(i))),
        sem_expr(fuel, s2, args[2], input) == (s3, Ok::<SpecValue, SpecError>(v)),
    ensures
        ({
            let (s, r) = sem_intrinsic(fuel, st, Intrinsic::ArraySet, args, input);
            &&& s == s3
            &&& r matches Ok(SpecValue::Arr(w)) && w.len() == items.len() && w[i as int] == v
                && forall|j: int| 0 <= j < items.len() && j != i ==> #[trigger] w[j] == items[j]
        }),
{
}

/// `String.char_code(s, i)` on an ASCII string is the code of the
/// character at position `i`, for `0 <= i < len`.
pub proof fn law_char_code_ascii(
    fuel: nat,
    st: SState,
    args: Seq<SpecExpr>,
    s1: SState,
    s2: SState,
    text: Seq<char>,
    i: isize,
    input: u8,
)
    requires
        args.len() >= 2,
        is_ascii_chars(text),
        0 <= i < text.len(),
        sem_expr(fuel, st, args[0], input) == (s1, Ok::<SpecValue, SpecError>(SpecValue::Str(text))),
        sem_expr(fuel, s1, args[1], input) == (s2, Ok::<SpecValue, SpecError>(SpecValue::Num(i))),
    ensures
        ({
            let (s, r) = sem_intrinsic(fuel, st, Intrinsic::CharCode, args, input);
            &&& s == s2
            &&& r matches Ok(SpecValue::Num(code)) && code as int == text[i as int] as int
        }),
{
    is_ascii_chars_encode_utf8(text);
    assert(text[i as int] as u8 == encode_utf8(text)[i as int]);
    assert('\0' <= text[i as int] <= '\u{7f}');
}

/// Shifting a non-negative number left by `b` places multiplies it by
/// `2^b`, as long as the product fits.
proof fn lemma_shl_doubles(a: isize, b: u32)
    requires
        0 <= a,
        b < usize::BITS,
        a * pow2(b as nat) <= isize::MAX,
    ensures
        a << b == a * pow2(b as nat),
    decreases b,
{
    if b == 0 {
        assert(a << 0u32 == a) by (bit_vector);
        lemma2_to64();
    } else {
        let c = (b - 1) as u32;
        vstd::arithmetic::power2::lemma_pow2_unfold(b as nat);
        let p = pow2(c as nat);
        assert(a * pow2(b as nat) == (a * p) * 2) by (nonlinear_arith)
            requires pow2(b as nat) == 2 * p;
        assert(0 <= a * p) by (nonlinear_arith)
            requires 0 <= a, 0 <= p;
        lemma_shl_doubles(a, c);
        let x = a << c;
        assert(x == a * p);
        let y = (x * 2) as isize;
        assert(y == x * 2);
        assert(x << 1u32 == y) by (bit_vector)
            requires
                0 <= x,
                y == x * 2,
        ;
        assert(a << b == (a << c) << 1u32) by (bit_vector)
            requires
                c + 1 == b,
                b < usize::BITS,
        ;
    }
}

/// `a << b` on a non-negative `a` and `0 <= b < usize::BITS` is `a * 2^b`
/// when that product fits in `isize`; a shift amount outside
/// `0 .. usize::BITS` is a shift overflow.
pub proof fn law_shift(fuel: nat, st: SState, a: isize, b: isize, input: u8)
    ensures
        0 <= b < usize::BITS && 0 <= a && a * pow2(b as nat) <= isize::MAX ==> sem_expr(
            fuel,
            st,
            SpecExpr::BitShl(SpecPrim::Num(a), SpecPrim::Num(b)),
            input,
        ) == (st, Ok::<SpecValue, SpecError>(SpecValue::Num((a * pow2(b as nat)) as isize))),
        !(0 <= b < usize::BITS) ==> sem_expr(
            fuel,
            st,
            SpecExpr::BitShl(SpecPrim::Num(a), SpecPrim::Num(b)),
            input,
        ) == (st, Err::<SpecValue, SpecError>(SpecError::ShiftOverflow)),
{
    reveal(binary_op);
    reveal(num_op);
    lemma_literal_operands(fuel, st, SpecExpr::BitShl(SpecPrim::Num(a), SpecPrim::Num(b)), a, b, input);
    if 0 <= b < usize::BITS && 0 <= a && a * pow2(b as nat) <= isize::MAX {
        lemma_shl_doubles(a, b as u32);
        assert((b as u32) % usize::BITS == b as u32);
    }
}

/// The frame in which `render` runs binds its first parameter to the
/// window and its second to the input (a parameter named `_` binds
/// nothing), and nothing else.
pub proof fn law_render_frame(params: Seq<(Seq<char>, SpecPath)>)
    requires
        params.len() >= 2,
        params[0].0 != params[1].0,
    ensures
        params[0].0 != "_"@ ==> render_frame(params).contains_key(single(params[0].0))
            && render_frame(params)[single(params[0].0)] == SpecBinding::Value(false, SpecValue::Window),
        params[1].0 != "_"@ ==> render_frame(params).contains_key(single(params[1].0))
            && render_frame(params)[single(params[1].0)] == SpecBinding::Value(false, SpecValue::Input),
        forall|p: SpecPath| #[trigger] render_frame(params).contains_key(p) ==> p == single(params[0].0)
            || p == single(params[1].0),
{
    assert(single(params[0].0)[0] == params[0].0);
    assert(single(params[1].0)[0] == params[1].0);
}

/// The magnitude of an integer.
pub open spec fn magnitude(v: int) -> int {
    if v < 0 { -v } else { v }
}

/// The quotient of division that rounds toward zero, as the evaluator
/// computes it from the magnitudes of the operands.
pub open spec fn truncated_quotient(x: int, d: int) -> int {
    if x == 0 {
        0
    } else if x > 0 && d > 0 {
        x / d
    } else if x < 0 && d < 0 {
        (x * -1) / (d * -1)
    } else if x < 0 {
        ((x * -1) / d) * -1
    } else {
        (x / (d * -1)) * -1
    }
}

/// The remainder that goes with `truncated_quotient`.
pub open spec fn truncated_remainder(x: int, d: int) -> int {
    if x == 0 {
        0
    } else if x > 0 && d > 0 {
        x % d
    } else if x < 0 && d < 0 {
        ((x * -1) % (d * -1)) * -1
    } else if x < 0 {
        ((x * -1) % d) * -1
    } else {
        x % (d * -1)
    }
}

/// Rounding toward zero: `x == q * d + r`, the remainder is smaller than
/// the divisor and has the sign of the dividend, and the quotient times
/// the divisor does not exceed the dividend in magnitude.
proof fn lemma_truncated_parts(x: int, d: int)
    requires
        d != 0,
    ensures
        ({
            let q = truncated_quotient(x, d);
            let r = truncated_remainder(x, d);
            &&& x == q * d + r
            &&& magnitude(r) < magnitude(d)
            &&& (r == 0 || (r < 0) == (x < 0))
            &&& magnitude(q) * magnitude(d) <= magnitude(x)
            &&& 0 <= magnitude(q)
        }),
{
    if x > 0 && d > 0 {
        assert(x == (x / d) * d + x % d && 0 <= x % d < d && 0 <= x / d && (x / d) * d <= x)
            by (nonlinear_arith)
            requires x > 0, d > 0;
    } else if x < 0 && d < 0 {
        let u = -x;
        let e = -d;
        assert(u == (u / e) * e + u % e && 0 <= u % e < e && 0 <= u / e && (u / e) * e <= u)
            by (nonlinear_arith)
            requires u > 0, e > 0;
        assert(x * -1 == u && d * -1 == e);
        assert(x == (u / e) * d + (u % e) * -1) by (nonlinear_arith)
            requires u == -x, e == -d, u == (u / e) * e + u % e;
    } else if x < 0 {
        let u = -x;
        assert(u == (u / d) * d + u % d && 0 <= u % d < d && 0 <= u / d && (u / d) * d <= u)
            by (nonlinear_arith)
            requires u > 0, d > 0;
        assert(x * -1 == u);
        assert(x == ((u / d) * -1) * d + (u % d) * -1) by (nonlinear_arith)
            requires u == -x, u == (u / d) * d + u % d;
    } else if x > 0 {
        let e = -d;
        assert(x == (x / e) * e + x % e && 0 <= x % e < e && 0 <= x / e && (x / e) * e <= x)
            by (nonlinear_arith)
            requires x > 0, e > 0;
        assert(d * -1 == e);
        assert(x == ((x / e) * -1) * d + x % e) by (nonlinear_arith)
            requires e == -d, x == (x / e) * e + x % e;
    }
    let mq = magnitude(truncated_quotient(x, d));
    let md = magnitude(d);
    let mx = magnitude(x);
    if x != 0 {
        let w = mx / md;
        assert(mq == w);
        assert(mq * md <= mx) by (nonlinear_arith)
            requires mq == w, w == mx / md, md > 0, mx > 0;
    }
}

/// On any two numbers, `/` and `%` divide rounding toward zero: with a
/// non-zero divisor, `a == q * b + r`, the remainder is smaller than the
/// divisor in magnitude and has the sign of the dividend (or is zero).
/// The one quotient that does not fit, `isize::MIN / -1`, is an overflow.
pub proof fn law_truncated_division(fuel: nat, st: SState, a: isize, b: isize, input: u8)
    requires
        b != 0,
    ensures
        !(a == isize::MIN && b == -1) ==> ({
            let q = sem_expr(fuel, st, SpecExpr::Div(SpecPrim::Num(a), SpecPrim::Num(b)), input);
            let r = sem_expr(fuel, st, SpecExpr::Mod(SpecPrim::Num(a), SpecPrim::Num(b)), input);
            &&& q.0 == st && r.0 == st
            &&& q.1 matches Ok(SpecValue::Num(qv)) && r.1 matches Ok(SpecValue::Num(rv))
                && a == qv * b + rv && magnitude(rv as int) < magnitude(b as int)
                && (rv == 0 || (rv < 0) == (a < 0))
        }),
        a == isize::MIN && b == -1 ==> sem_expr(fuel, st, SpecExpr::Div(SpecPrim::Num(a), SpecPrim::Num(b)), input) == (
            st,
            Err::<SpecValue, SpecError>(SpecError::Overflow),
        ),
        a == isize::MIN && b == -1 ==> sem_expr(fuel, st, SpecExpr::Mod(SpecPrim::Num(a), SpecPrim::Num(b)), input) == (
            st,
            Err::<SpecValue, SpecError>(SpecError::Overflow),
        ),
{
    reveal(binary_op);
    reveal(num_op);
    lemma_literal_operands(fuel, st, SpecExpr::Div(SpecPrim::Num(a), SpecPrim::Num(b)), a, b, input);
    lemma_literal_operands(fuel, st, SpecExpr::Mod(SpecPrim::Num(a), SpecPrim::Num(b)), a, b, input);
    let x = a as int;
    let d = b as int;
    lemma_truncated_parts(x, d);
    let q = truncated_quotient(x, d);
    let mq = magnitude(q);
    let md = magnitude(d);
    let mx = magnitude(x);
    if a == isize::MIN && b == -1 {
        assert(d * -1 == 1);
        assert((x * -1) / 1 == x * -1);
        assert(x * -1 > isize::MAX);
    } else if md == 1 {
        assert(mq <= mx);
    } else {
        assert(2 * mq <= mx) by (nonlinear_arith)
            requires mq * md <= mx, md >= 2, mq >= 0;
    }
}

/// A new binding in the innermost scope is what a later lookup of its
/// path finds; every other path is found as before, and no scope is added
/// or removed. Binding fails only when there is no scope.
pub proof fn law_bind_then_lookup(stack: Seq<Map<SpecPath, SpecBinding>>, path: SpecPath, b: SpecBinding)
    ensures
        stack.len() == 0 <==> bind_top(stack, path, b) is None,
        bind_top(stack, path, b) matches Some(sc) ==> {
            &&& sc.len() == stack.len()
            &&& lookup(sc, path) == Some(b)
            &&& forall|p: SpecPath| p != path ==> #[trigger] lookup(sc, p) == lookup(stack, p)
        },
{
    if stack.len() > 0 {
        let sc = bind_top(stack, path, b)->Some_0;
        assert(sc.drop_last() =~= stack.drop_last());
        assert(sc.last() == stack.last().insert(path, b));
    }
}

/// Assigning to a path changes what a later lookup of it finds, in the
/// innermost scope that binds it, and nothing else: every other path is
/// found as before and no scope is added or removed. Assignment fails
/// exactly when no scope binds the path.
pub proof fn law_assign_then_lookup(stack: Seq<Map<SpecPath, SpecBinding>>, path: SpecPath, b: SpecBinding)
    ensures
        lookup(stack, path) is None <==> assign(stack, path, b) is None,
        assign(stack, path, b) matches Some(sc) ==> {
            &&& sc.len() == stack.len()
            &&& lookup(sc, path) == Some(b)
            &&& forall|p: SpecPath| p != path ==> #[trigger] lookup(sc, p) == lookup(stack, p)
        },
    decreases stack.len(),
{
    if stack.len() > 0 {
        if stack.last().contains_key(path) {
            let sc = assign(stack, path, b)->Some_0;
            assert(sc.drop_last() =~= stack.drop_last());
        } else {
            let rest = stack.drop_last();
            law_assign_then_lookup(rest, path, b);
            if assign(rest, path, b) is Some {
                let r2 = assign(rest, path, b)->Some_0;
                let sc = r2.push(stack.last());
                assert(sc.drop_last() =~= r2);
                assert forall|p: SpecPath| p != path implies #[trigger] lookup(sc, p) == lookup(stack, p) by {
                    assert(lookup(r2, p) == lookup(rest, p));
                }
            }
        }
    }
}

/// `let name = e` (or `var`) makes `name` read back the value of `e`: when
/// `e` evaluates to `v` and there is a scope, the statement completes and
/// evaluating `name` afterwards gives `v`, whether or not the binding is
/// mutable.
pub proof fn law_let_then_read(fuel: nat, st: SState, b: SpecBind, s1: SState, v: SpecValue, input: u8)
    requires
        sem_expr(fuel, st, b.expr, input) == (s1, Ok::<SpecValue, SpecError>(v)),
        s1.scopes.len() > 0,
    ensures
        ({
            let (s2, r) = sem_stmt(fuel, st, SpecStmt::Bind(b), input);
            &&& r == Ok::<Option<SpecValue>, SpecError>(None)
            &&& s2.effects == s1.effects
            &&& sem_prim(fuel, s2, SpecPrim::Path(single(b.name)), input) == (
                s2,
                Ok::<SpecValue, SpecError>(v),
            )
        }),
{
    law_bind_then_lookup(s1.scopes, single(b.name), SpecBinding::Value(b.mutable, v));
}

/// `name = e` makes `name` read back the value of `e` when some scope
/// binds `name`; when none does, the assignment is invalid.
pub proof fn law_assign_then_read(fuel: nat, st: SState, name: Seq<char>, e: SpecExpr, s1: SState, v: SpecValue, input: u8)
    requires
        sem_expr(fuel, st, e, input) == (s1, Ok::<SpecValue, SpecError>(v)),
    ensures
        ({
            let (s2, r) = sem_stmt(fuel, st, SpecStmt::Assn(name, e), input);
            &&& lookup(s1.scopes, single(name)) is Some ==> {
                &&& r == Ok::<Option<SpecValue>, SpecError>(None)
                &&& sem_prim(fuel, s2, SpecPrim::Path(single(name)), input) == (
                    s2,
                    Ok::<SpecValue, SpecError>(v),
                )
            }
            &&& lookup(s1.scopes, single(name)) is None ==> r == Err::<Option<SpecValue>, SpecError>(
                SpecError::Invalid,
            )
        }),
{
    law_assign_then_lookup(s1.scopes, single(name), SpecBinding::Value(true, v));
}

/// `if c:` runs its body exactly when `c` is true, and does nothing more
/// than evaluate `c` when it is false.
pub proof fn law_if_runs_body_when_true(fuel: nat, st: SState, c: SpecExpr, body: Seq<SpecStmt>, s1: SState, x: bool, input: u8)
    requires
        sem_expr(fuel, st, c, input) == (s1, Ok::<SpecValue, SpecError>(SpecValue::Bool(x))),
    ensures
        x ==> sem_stmt(fuel, st, SpecStmt::Cond(c, body), input) == sem_body(fuel, s1, body, 0, input),
        !x ==> sem_stmt(fuel, st, SpecStmt::Cond(c, body), input) == (
            s1,
            Ok::<Option<SpecValue>, SpecError>(None),
        ),
{
}

} // verus!
