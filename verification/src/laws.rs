//! Laws across the parser and the interpreter, and over runs of frames.
use vstd::prelude::*;
use crate::grammar::{expr_at, make_binary, BinOp, Parsed};
use crate::semantics::{
    binary_op, extends, law_prepare_one_scope, law_render_appends, num_op, operands, sem_expr,
    sem_operands, sem_prepare, sem_prim, sem_render, SState, sem_stmt, sem_body, sem_args,
    sem_invoke, sem_loop, with_scopes, lemma_invoke_depth,
};
use crate::syntax::{SpecExpr, SpecItem, SpecPath, SpecPrim, SpecStmt};
use crate::value::{SpecEffect, SpecError, SpecValue};

verus! {

/// Whether an operator compares its operands.
pub open spec fn is_comparison(op: BinOp) -> bool {
    op is Eq || op is Ne || op is Ge || op is Le || op is Gt || op is Lt
}

/// The usual meaning of a comparison operator on two numbers.
pub open spec fn compares(op: BinOp, a: isize, b: isize) -> bool {
    match op {
        BinOp::Eq => a == b,
        BinOp::Ne => a != b,
        BinOp::Ge => a >= b,
        BinOp::Le => a <= b,
        BinOp::Gt => a > b,
        BinOp::Lt => a < b,
        _ => false,
    }
}

/// A comparison of two numeric literals, as the parser builds it from
/// `a op b`, evaluates to the usual comparison of the two numbers, and
/// changes neither the scopes nor the requests made of the host.
pub proof fn law_comparison_of_literals(
    s: Seq<char>,
    i: int,
    j: int,
    op: BinOp,
    a: isize,
    b: isize,
    fuel: nat,
    st: SState,
    input: u8,
)
    requires
        is_comparison(op),
        expr_at(s, i) == Parsed::Done(j, make_binary(op, SpecPrim::Num(a), SpecPrim::Num(b))),
    ensures
        sem_expr(fuel, st, make_binary(op, SpecPrim::Num(a), SpecPrim::Num(b)), input) == (
            st,
            Ok::<SpecValue, SpecError>(SpecValue::Bool(compares(op, a, b))),
        ),
{
    reveal(binary_op);
    reveal(num_op);
    let e = make_binary(op, SpecPrim::Num(a), SpecPrim::Num(b));
    assert(sem_prim(fuel, st, SpecPrim::Num(a), input) == (st, Ok::<SpecValue, SpecError>(SpecValue::Num(a))));
    assert(sem_prim(fuel, st, SpecPrim::Num(b), input) == (st, Ok::<SpecValue, SpecError>(SpecValue::Num(b))));
    assert(operands(e) == (SpecPrim::Num(a), SpecPrim::Num(b)));
    assert(sem_operands(fuel, st, e, input) == (
        st,
        Ok::<(SpecValue, SpecValue), SpecError>((SpecValue::Num(a), SpecValue::Num(b))),
    ));
    assert(binary_op(e, SpecValue::Num(a), SpecValue::Num(b)) == Ok::<SpecValue, SpecError>(
        SpecValue::Bool(compares(op, a, b)),
    ));
}

/// The state after rendering one frame per input, stopping at the first
/// frame that fails, and whether every frame succeeded.
pub open spec fn run_frames(st: SState, inputs: Seq<u8>) -> (SState, bool)
    decreases inputs.len(),
{
    if inputs.len() == 0 {
        (st, true)
    } else {
        let (s1, r) = sem_render(st, inputs[0]);
        if r is Ok {
            run_frames(s1, inputs.subrange(1, inputs.len() as int))
        } else {
            (s1, false)
        }
    }
}

/// Frames that succeed keep the number of scopes, and only add to the
/// requests made of the host.
pub proof fn lemma_run_frames(st: SState, inputs: Seq<u8>)
    ensures
        run_frames(st, inputs).1 ==> run_frames(st, inputs).0.scopes.len() == st.scopes.len(),
        extends(st.effects, run_frames(st, inputs).0.effects),
    decreases inputs.len(),
{
    if inputs.len() > 0 {
        law_render_appends(st, inputs[0]);
        let (s1, r) = sem_render(st, inputs[0]);
        if r is Ok {
            lemma_run_frames(s1, inputs.subrange(1, inputs.len() as int));
        }
    }
}

/// A prepared program keeps exactly one scope, its global scope, across
/// any run of frames that all succeed; the host only ever receives more
/// requests.
pub proof fn law_frames_keep_one_scope(items: Seq<SpecItem>, log: Seq<SpecEffect>, inputs: Seq<u8>)
    requires
        sem_prepare(items, log).1 is Ok,
    ensures
        run_frames(sem_prepare(items, log).0, inputs).1 ==> run_frames(
            sem_prepare(items, log).0,
            inputs,
        ).0.scopes.len() == 1,
        extends(log, run_frames(sem_prepare(items, log).0, inputs).0.effects),
{
    law_prepare_one_scope(items, log);
    lemma_run_frames(sem_prepare(items, log).0, inputs);
}


/// A body runs its statements in order: a statement that completes hands
/// its state to the next; the first that returns a value or fails ends the
/// body there, and the statements after it have no effect.
pub proof fn law_body_in_order(fuel: nat, st: SState, stmts: Seq<SpecStmt>, k: int, input: u8)
    requires
        0 <= k < stmts.len(),
    ensures
        ({
            let (s1, r) = sem_stmt(fuel, st, stmts[k], input);
            &&& r == Ok::<Option<SpecValue>, SpecError>(None) ==> sem_body(fuel, st, stmts, k, input)
                == sem_body(fuel, s1, stmts, k + 1, input)
            &&& r != Ok::<Option<SpecValue>, SpecError>(None) ==> sem_body(fuel, st, stmts, k, input)
                == (s1, r)
        }),
        sem_body(fuel, st, stmts, stmts.len() as int, input) == (st, Ok::<Option<SpecValue>, SpecError>(None)),
{
}

/// A call of a user function evaluates the arguments into a new frame,
/// runs the body on top of it, and pops the frame: when it succeeds, it
/// leaves as many scopes as it found and yields the body's value, or the
/// unit value when the body returns none.
pub proof fn law_call_pops_frame(
    fuel: nat,
    st: SState,
    params: Seq<(Seq<char>, SpecPath)>,
    body: Seq<SpecStmt>,
    args: Seq<SpecExpr>,
    input: u8,
)
    requires
        fuel > 0,
        sem_args(fuel, st, params, args, 0, Map::empty(), input).1 is Ok,
    ensures
        ({
            let (s1, r1) = sem_args(fuel, st, params, args, 0, Map::empty(), input);
            let s2 = with_scopes(s1, s1.scopes.push(r1->Ok_0));
            let (s3, r3) = sem_body((fuel - 1) as nat, s2, body, 0, input);
            &&& r3 is Ok ==> sem_invoke(fuel, st, params, body, args, input) == (
                with_scopes(s3, s3.scopes.drop_last()),
                Ok::<SpecValue, SpecError>(
                    match r3->Ok_0 {
                        Some(v) => v,
                        None => SpecValue::Unit,
                    },
                ),
            )
            &&& r3 is Ok ==> sem_invoke(fuel, st, params, body, args, input).0.scopes.len()
                == st.scopes.len()
            &&& r3 is Err ==> sem_invoke(fuel, st, params, body, args, input) == (s3, Err::<SpecValue, SpecError>(r3->Err_0))
        }),
{
    lemma_invoke_depth(fuel, st, params, body, args, input);
}

/// A loop that has fuel tests its condition: on `false` it completes, on
/// `true` it runs the body, and when the body completes it goes round
/// again with one unit of fuel less; a body that returns ends the loop.
pub proof fn law_loop_iteration(fuel: nat, st: SState, c: SpecExpr, body: Seq<SpecStmt>, input: u8)
    requires
        fuel > 0,
    ensures
        ({
            let f1 = (fuel - 1) as nat;
            let (s1, r) = sem_expr(f1, st, c, input);
            let (s2, r2) = sem_body(f1, s1, body, 0, input);
            &&& r == Ok::<SpecValue, SpecError>(SpecValue::Bool(false)) ==> sem_loop(fuel, st, c, body, input)
                == (s1, Ok::<Option<SpecValue>, SpecError>(None))
            &&& r == Ok::<SpecValue, SpecError>(SpecValue::Bool(true)) && r2 == Ok::<Option<SpecValue>, SpecError>(None)
                ==> sem_loop(fuel, st, c, body, input) == sem_loop(f1, s2, c, body, input)
            &&& r == Ok::<SpecValue, SpecError>(SpecValue::Bool(true)) && (r2 is Ok && r2->Ok_0 is Some)
                ==> sem_loop(fuel, st, c, body, input) == (s2, r2)
        }),
{
}

} // verus!
