//! The step limit only bounds evaluation: a run that does not run out of
//! fuel gives the same state and result with any larger amount of fuel.
use vstd::prelude::*;
use crate::semantics::{
    is_binary, is_fault, operands, sem_arg, sem_args, sem_body, sem_call, sem_expr, sem_intrinsic,
    sem_invoke, sem_loop, sem_operands, sem_prim, sem_stmt, with_scopes, SState,
};
use crate::scope::lookup;
use crate::syntax::{SpecCall, SpecExpr, SpecPath, SpecPrim, SpecStmt};
use crate::value::{Intrinsic, SpecBinding, SpecError, SpecValue};

verus! {

/// Whether a result is the report that fuel ran out.
pub open spec fn exhausted<T>(r: Result<T, SpecError>) -> bool {
    r matches Err(SpecError::Exhausted)
}

/// More fuel never changes an expression's evaluation that did not run
/// out of fuel (and likewise, in the lemmas below, for each kind of node).
pub proof fn lemma_expr_fuel(f: nat, g: nat, st: SState, e: SpecExpr, input: u8)
    requires
        f <= g,
        !exhausted(sem_expr(f, st, e, input).1),
    ensures
        sem_expr(g, st, e, input) == sem_expr(f, st, e, input),
    decreases f, 0int, e, 2int,
{
    match e {
        SpecExpr::Prim(p) => lemma_prim_fuel(f, g, st, p, input),
        SpecExpr::Comp(p) => {
            if !exhausted(sem_prim(f, st, p, input).1) {
                lemma_prim_fuel(f, g, st, p, input);
            }
        },
        SpecExpr::BitNot(p) => {
            if !exhausted(sem_prim(f, st, p, input).1) {
                lemma_prim_fuel(f, g, st, p, input);
            }
        },
        _ => {
            if !exhausted(sem_operands(f, st, e, input).1) {
                lemma_operands_fuel(f, g, st, e, input);
            }
        },
    }
}

pub proof fn lemma_operands_fuel(f: nat, g: nat, st: SState, e: SpecExpr, input: u8)
    requires
        f <= g,
        !exhausted(sem_operands(f, st, e, input).1),
    ensures
        sem_operands(g, st, e, input) == sem_operands(f, st, e, input),
    decreases f, 0int, e, 1int,
{
    if is_binary(e) {
        let (l, r) = operands(e);
        let (s1, r1) = sem_prim(f, st, l, input);
        if !exhausted(r1) {
            lemma_prim_fuel(f, g, st, l, input);
            if !(r1 is Err && is_fault(r1->Err_0)) {
                if !exhausted(sem_prim(f, s1, r, input).1) {
                    lemma_prim_fuel(f, g, s1, r, input);
                }
            }
        }
    }
}

pub proof fn lemma_prim_fuel(f: nat, g: nat, st: SState, p: SpecPrim, input: u8)
    requires
        f <= g,
        !exhausted(sem_prim(f, st, p, input).1),
    ensures
        sem_prim(g, st, p, input) == sem_prim(f, st, p, input),
    decreases f, 0int, p, 0int,
{
    match p {
        SpecPrim::Call(c) => lemma_call_fuel(f, g, st, c, input),
        SpecPrim::Sect(e) => lemma_expr_fuel(f, g, st, *e, input),
        _ => {},
    }
}

pub proof fn lemma_call_fuel(f: nat, g: nat, st: SState, c: SpecCall, input: u8)
    requires
        f <= g,
        !exhausted(sem_call(f, st, c, input).1),
    ensures
        sem_call(g, st, c, input) == sem_call(f, st, c, input),
    decreases f, 0int, c, 0int,
{
    match lookup(st.scopes, c.path) {
        Some(SpecBinding::Intrinsic(which)) => lemma_intrinsic_fuel(f, g, st, which, c.args, input),
        Some(SpecBinding::Func(func)) => lemma_invoke_fuel(
            f,
            g,
            st,
            func.params,
            func.body,
            c.args,
            input,
        ),
        _ => {},
    }
}

pub proof fn lemma_invoke_fuel(
    f: nat,
    g: nat,
    st: SState,
    params: Seq<(Seq<char>, SpecPath)>,
    body: Seq<SpecStmt>,
    args: Seq<SpecExpr>,
    input: u8,
)
    requires
        f <= g,
        !exhausted(sem_invoke(f, st, params, body, args, input).1),
    ensures
        sem_invoke(g, st, params, body, args, input) == sem_invoke(f, st, params, body, args, input),
    decreases f, 0int, args, args.len() + 1,
{
    if f > 0 {
        let (s1, r) = sem_args(f, st, params, args, 0, Map::empty(), input);
        if !exhausted(r) {
            lemma_args_fuel(f, g, st, params, args, 0, Map::empty(), input);
        }
        if let Ok(frame) = r {
            let s2 = with_scopes(s1, s1.scopes.push(frame));
            if !exhausted(sem_body((f - 1) as nat, s2, body, 0, input).1) {
                lemma_body_fuel((f - 1) as nat, (g - 1) as nat, s2, body, 0, input);
            }
        }
    }
}

pub proof fn lemma_args_fuel(
    f: nat,
    g: nat,
    st: SState,
    params: Seq<(Seq<char>, SpecPath)>,
    args: Seq<SpecExpr>,
    k: int,
    frame: Map<SpecPath, SpecBinding>,
    input: u8,
)
    requires
        f <= g,
        !exhausted(sem_args(f, st, params, args, k, frame, input).1),
    ensures
        sem_args(g, st, params, args, k, frame, input) == sem_args(f, st, params, args, k, frame, input),
    decreases f, 0int, args, args.len() - k,
{
    if 0 <= k < params.len() && k < args.len() {
        let (s1, r) = sem_expr(f, st, args[k], input);
        if !exhausted(r) {
            lemma_expr_fuel(f, g, st, args[k], input);
        }
        if let Ok(v) = r {
            lemma_args_fuel(
                f,
                g,
                s1,
                params,
                args,
                k + 1,
                frame.insert(crate::semantics::single(params[k].0), SpecBinding::Value(false, v)),
                input,
            );
        }
    }
}

pub proof fn lemma_arg_fuel(f: nat, g: nat, st: SState, args: Seq<SpecExpr>, k: int, input: u8)
    requires
        f <= g,
        !exhausted(sem_arg(f, st, args, k, input).1),
    ensures
        sem_arg(g, st, args, k, input) == sem_arg(f, st, args, k, input),
    decreases f, 0int, args, 0int,
{
    if 0 <= k < args.len() {
        lemma_expr_fuel(f, g, st, args[k], input);
    }
}

/// The first four arguments of a built-in, evaluated one after another,
/// evaluate alike with more fuel wherever they did not run out of it.
pub proof fn lemma_builtin_args_fuel(f: nat, g: nat, st: SState, args: Seq<SpecExpr>, input: u8)
    requires
        f <= g,
    ensures
        ({
            let (s1, r0) = sem_arg(f, st, args, 0, input);
            let (s2, r1) = sem_arg(f, s1, args, 1, input);
            let (s3, r2) = sem_arg(f, s2, args, 2, input);
            let (s4, r3) = sem_arg(f, s3, args, 3, input);
            &&& !exhausted(r0) ==> sem_arg(g, st, args, 0, input) == (s1, r0)
            &&& !exhausted(r1) ==> sem_arg(g, s1, args, 1, input) == (s2, r1)
            &&& !exhausted(r2) ==> sem_arg(g, s2, args, 2, input) == (s3, r2)
            &&& !exhausted(r3) ==> sem_arg(g, s3, args, 3, input) == (s4, r3)
        }),
    decreases f, 0int, args, 1int,
{
    let (s1, r0) = sem_arg(f, st, args, 0, input);
    let (s2, r1) = sem_arg(f, s1, args, 1, input);
    let (s3, r2) = sem_arg(f, s2, args, 2, input);
    let (s4, r3) = sem_arg(f, s3, args, 3, input);
    if !exhausted(r0) {
        lemma_arg_fuel(f, g, st, args, 0, input);
    }
    if !exhausted(r1) {
        lemma_arg_fuel(f, g, s1, args, 1, input);
    }
    if !exhausted(r2) {
        lemma_arg_fuel(f, g, s2, args, 2, input);
    }
    if !exhausted(r3) {
        lemma_arg_fuel(f, g, s3, args, 3, input);
    }
}

pub proof fn lemma_intrinsic_fuel(f: nat, g: nat, st: SState, which: Intrinsic, args: Seq<SpecExpr>, input: u8)
    requires
        f <= g,
        !exhausted(sem_intrinsic(f, st, which, args, input).1),
    ensures
        sem_intrinsic(g, st, which, args, input) == sem_intrinsic(f, st, which, args, input),
    decreases f, 0int, args, 2int,
{
    lemma_builtin_args_fuel(f, g, st, args, input);
}

/// More fuel never changes a body's run that did not run out of fuel.
pub proof fn lemma_body_fuel(f: nat, g: nat, st: SState, stmts: Seq<SpecStmt>, k: int, input: u8)
    requires
        f <= g,
        !exhausted(sem_body(f, st, stmts, k, input).1),
    ensures
        sem_body(g, st, stmts, k, input) == sem_body(f, st, stmts, k, input),
    decreases f, 1int, stmts, stmts.len() - k,
{
    if 0 <= k < stmts.len() {
        let (s1, r) = sem_stmt(f, st, stmts[k], input);
        if !exhausted(r) {
            lemma_stmt_fuel(f, g, st, stmts[k], input);
        }
        if r == Ok::<Option<SpecValue>, SpecError>(None) {
            lemma_body_fuel(f, g, s1, stmts, k + 1, input);
        }
    }
}

pub proof fn lemma_stmt_fuel(f: nat, g: nat, st: SState, s: SpecStmt, input: u8)
    requires
        f <= g,
        !exhausted(sem_stmt(f, st, s, input).1),
    ensures
        sem_stmt(g, st, s, input) == sem_stmt(f, st, s, input),
    decreases f, 1int, s, 1int,
{
    match s {
        SpecStmt::Bind(b) => {
            if !exhausted(sem_expr(f, st, b.expr, input).1) {
                lemma_expr_fuel(f, g, st, b.expr, input);
            }
        },
        SpecStmt::Assn(n, e) => {
            if !exhausted(sem_expr(f, st, e, input).1) {
                lemma_expr_fuel(f, g, st, e, input);
            }
        },
        SpecStmt::Call(c) => {
            if !exhausted(sem_call(f, st, c, input).1) {
                lemma_call_fuel(f, g, st, c, input);
            }
        },
        SpecStmt::Cond(c, body) => {
            let (s1, r) = sem_expr(f, st, c, input);
            if !exhausted(r) {
                lemma_expr_fuel(f, g, st, c, input);
            }
            if r == Ok::<SpecValue, SpecError>(SpecValue::Bool(true)) {
                lemma_body_fuel(f, g, s1, body, 0, input);
            }
        },
        SpecStmt::Loop(c, body) => lemma_loop_fuel(f, g, st, c, body, input),
        SpecStmt::Ret(Some(e)) => {
            if !exhausted(sem_expr(f, st, e, input).1) {
                lemma_expr_fuel(f, g, st, e, input);
            }
        },
        _ => {},
    }
}

pub proof fn lemma_loop_fuel(f: nat, g: nat, st: SState, c: SpecExpr, body: Seq<SpecStmt>, input: u8)
    requires
        f <= g,
        !exhausted(sem_loop(f, st, c, body, input).1),
    ensures
        sem_loop(g, st, c, body, input) == sem_loop(f, st, c, body, input),
    decreases f, 1int, body, 0int,
{
    if f > 0 {
        let f1 = (f - 1) as nat;
        let g1 = (g - 1) as nat;
        let (s1, r) = sem_expr(f1, st, c, input);
        if !exhausted(r) {
            lemma_expr_fuel(f1, g1, st, c, input);
        }
        if r == Ok::<SpecValue, SpecError>(SpecValue::Bool(true)) {
            let (s2, r2) = sem_body(f1, s1, body, 0, input);
            if !exhausted(r2) {
                lemma_body_fuel(f1, g1, s1, body, 0, input);
            }
            if r2 == Ok::<Option<SpecValue>, SpecError>(None) {
                lemma_loop_fuel(f1, g1, s2, c, body, input);
            }
        }
    }
}

} // verus!
