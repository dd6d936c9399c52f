//! The interpreter: runs a parsed program against a host environment.
use vstd::prelude::*;
use crate::compiler::Compiler;
use crate::grammar::{file_at, Parsed};
use crate::parser::{parse_file_text, ParseError};
use crate::scope::{Scope, assign, bind_last, bind_top, lemma_assign_at, lookup, stack_view};
use crate::semantics::{SState, single, binary_op, num_op, sem_arg, sem_args, sem_body, sem_call, sem_expr,
    sem_intrinsic, sem_invoke, sem_loop, sem_item, sem_items, sem_prepare, sem_render, install_builtins,
    initial_state, render_frame, STEP_LIMIT, sem_operands, sem_prim, sem_stmt, zeroes};
use crate::syntax::{SpecPath, File, Item, Assn, Bind, Body, Call, Cond, Expr, Func, Loop, Name, Num, Order, Path, Prim, Stmt,
    Str, copy_func, exprs_view, params_view, stmts_view};
use crate::value::{SpecBinding, Binding, EvalError, InputState, Intrinsic, SpecEffect, SpecError, SpecValue, Value,
    copy_value};

verus! {

/// The model of a host: the requests it has received, oldest first.
pub type Requests = Seq<SpecEffect>;

/// The host environment that a program draws to, implemented by the host.
///
/// Its model is the sequence of requests it has received: each method
/// records its own request, with its arguments, after those before it.
pub trait Environ {
    /// The requests received so far, oldest first.
    spec fn requests(&self) -> Requests;

    /// The host's first action, with a value.
    fn action_one(&mut self, value: u32)
        ensures
            final(self).requests() == old(self).requests().push(SpecEffect::ActionOne(value)),
    ;

    /// The host's second action, with a value.
    fn action_two(&mut self, value: u32)
        ensures
            final(self).requests() == old(self).requests().push(SpecEffect::ActionTwo(value)),
    ;

    /// Draws the tile `tile` at column `x`, row `y`.
    fn draw_tile(&mut self, tile: u32, x: u32, y: u32)
        ensures
            final(self).requests() == old(self).requests().push(SpecEffect::DrawTile(tile, x, y)),
    ;

    /// Loads a tile map from its textual description.
    fn load_tile(&mut self, tiles: &String)
        ensures
            final(self).requests() == old(self).requests().push(SpecEffect::LoadTile(tiles@)),
    ;
}

/// The interpreter's working state: the scope stack, and a record of the
/// requests made of the host.
pub struct Machine {
    pub scopes: Vec<Scope>,
}

/// The interpreter's state for a machine and a host: the scopes, and the
/// requests that the host has received.
pub open spec fn at<E: Environ>(m: Machine, environ: E) -> SState {
    SState { scopes: stack_view(m.scopes@), effects: environ.requests() }
}

impl Machine {
    /// A machine with the given scopes.
    pub fn new(scopes: Vec<Scope>) -> (m: Machine)
        ensures
            m.scopes@ == scopes@,
    {
        Machine { scopes }
    }
}

/// A running program with its host environment.
pub struct Backend<E> {
    pub compiler: Compiler,
    pub environ: E,
    pub scopes: Option<Vec<Scope>>,
    pub input: InputState,
}

/// Why a program could not be started.
#[derive(Debug)]
pub enum StartError {
    /// A numeric literal of the `main` module does not fit in `isize`.
    LiteralOverflow,
    /// Running the top-level items of `main` faulted.
    Fault(EvalError),
}

/// The name of the module that a program starts from.
pub open spec fn main_name() -> Seq<char> {
    seq!['m', 'a', 'i', 'n']
}

/// Plain equality, in a form that does not ask for extensional reasoning.
pub open spec fn same<T>(a: T, b: T) -> bool {
    a == b
}

/// The model of an evaluation result.
pub open spec fn value_result(r: Result<Value, EvalError>) -> Result<SpecValue, SpecError> {
    match r {
        Ok(v) => Ok(v@),
        Err(e) => Err(e@),
    }
}

/// The model of a statement result.
pub open spec fn flow_result(r: Result<Option<Value>, EvalError>) -> Result<Option<SpecValue>, SpecError> {
    match r {
        Ok(Some(v)) => Ok(Some(v@)),
        Ok(None) => Ok(None),
        Err(e) => Err(e@),
    }
}

/// The model of a call frame result.
pub open spec fn frame_result(r: Result<Scope, EvalError>) -> Result<Map<SpecPath, SpecBinding>, SpecError> {
    match r {
        Ok(f) => Ok(f@),
        Err(e) => Err(e@),
    }
}

/// The model of a unit result.
pub open spec fn unit_result(r: Result<(), EvalError>) -> Result<Option<SpecValue>, SpecError> {
    match r {
        Ok(()) => Ok(None),
        Err(e) => Err(e@),
    }
}

/// The array `items` with the element at `idx` replaced by `val`.
fn array_with(items: Vec<Value>, idx: usize, val: Value) -> (r: Value)
    requires
        idx < items@.len(),
    ensures
        r@ == SpecValue::Arr((Value::Arr(items))@->Arr_0.update(idx as int, val@)),
{
    let ghost before = Value::Arr(items)@->Arr_0;
    let ghost old_items = items@;
    let mut items = items;
    items.set(idx, val);
    let r = Value::Arr(items);
    proof {
        assert forall|j: int| 0 <= j < old_items.len() implies r@->Arr_0[j] == before.update(idx as int, val@)[j] by {
            if j != idx {
                assert(items@[j] == old_items[j]);
            }
        }
        assert(r@->Arr_0 =~= before.update(idx as int, val@));
    }
    r
}

/// A path of two identifiers.
fn path2(a: &str, b: &str) -> (p: Path)
    ensures
        p@ == crate::semantics::path2(a@, b@),
{
    let mut v: Vec<Name> = Vec::new();
    v.push(Name(a.to_owned()));
    v.push(Name(b.to_owned()));
    let p = Path(v);
    assert(p@ =~= crate::semantics::path2(a@, b@));
    p
}

/// The path of one identifier.
fn path1(a: &str) -> (p: Path)
    ensures
        p@ == crate::semantics::single(a@),
{
    Path::single(Name(a.to_owned()))
}

/// Adds the built-in names to a scope.
fn add_builtins(scope: &mut Scope)
    ensures
        final(scope)@ == install_builtins(old(scope)@),
{
    scope.insert(path2("Window", "draw"), Binding::Intrinsic(Intrinsic::Draw));
    scope.insert(path2("Input", "pressed"), Binding::Intrinsic(Intrinsic::Pressed));
    scope.insert(path2("Window", "load_tilemap"), Binding::Intrinsic(Intrinsic::LoadTilemap));
    scope.insert(path2("Input", "RIGHT"), Binding::Value(false, Value::Num(Num(0))));
    scope.insert(path2("Input", "LEFT"), Binding::Value(false, Value::Num(Num(1))));
    scope.insert(path2("Input", "DOWN"), Binding::Value(false, Value::Num(Num(2))));
    scope.insert(path2("Input", "UP"), Binding::Value(false, Value::Num(Num(3))));
    scope.insert(path2("Input", "BUTTON_ONE"), Binding::Value(false, Value::Num(Num(4))));
    scope.insert(path2("Input", "BUTTON_TWO"), Binding::Value(false, Value::Num(Num(5))));
    scope.insert(path2("Array", "get"), Binding::Intrinsic(Intrinsic::ArrayGet));
    scope.insert(path2("Array", "set"), Binding::Intrinsic(Intrinsic::ArraySet));
    scope.insert(path2("String", "char_code"), Binding::Intrinsic(Intrinsic::CharCode));
}

impl<E: Environ> Backend<E> {
    /// Starts the program of the module `main` of `compiler`.
    ///
    /// Without a `main` module, or where it does not parse, the program has
    /// no scopes and does nothing. Otherwise its items are run and the
    /// built-ins are added; an item that is invalid leaves the program
    /// without scopes too.
    pub fn new(compiler: Compiler, environ: E) -> (r: Result<Backend<E>, StartError>)
        requires
            compiler@.contains_key(main_name()) ==> compiler@[main_name()].len() < usize::MAX,
        ensures
            match r {
                Ok(b) => {
                    &&& b.compiler@ == compiler@
                    &&& b.input == InputState(0)
                    &&& if !compiler@.contains_key(main_name()) {
                        b.scopes is None && b.environ.requests() == environ.requests()
                    } else {
                        match file_at(compiler@[main_name()]) {
                            Parsed::Done(_, items) => {
                                let (s, res) = sem_prepare(items, environ.requests());
                                &&& same(b.environ.requests(), s.effects)
                                &&& match res {
                                    Ok(_) => b.scopes matches Some(sc) && same(stack_view(sc@), s.scopes),
                                    Err(e) => e == SpecError::Invalid && b.scopes is None,
                                }
                            },
                            Parsed::Mismatch => b.scopes is None && b.environ.requests() == environ.requests(),
                            Parsed::Overflow => false,
                        }
                    }
                },
                Err(StartError::LiteralOverflow) => compiler@.contains_key(main_name())
                    && file_at(compiler@[main_name()]) is Overflow,
                Err(StartError::Fault(e)) => compiler@.contains_key(main_name()) && match file_at(
                    compiler@[main_name()],
                ) {
                    Parsed::Done(_, items) => sem_prepare(items, environ.requests()).1 == Err::<Option<SpecValue>, SpecError>(e@)
                        && e@ != SpecError::Invalid,
                    _ => false,
                },
            },
    {
        let mut b = Backend {
            compiler,
            environ,
            scopes: None,
            input: InputState(0),
        };
        proof {
            reveal_strlit("main");
            assert("main"@ =~= main_name());
        }
        let parsed = match b.compiler.source("main") {
            None => {
                return Ok(b);
            },
            Some(src) => parse_file_text(src.as_str()),
        };
        match parsed {
            Err(ParseError::Mismatch) => Ok(b),
            Err(ParseError::Overflow) => Err(StartError::LiteralOverflow),
            Ok(file) => {
                match b.prepare(&file) {
                    Ok(()) => Ok(b),
                    Err(e) => Err(StartError::Fault(e)),
                }
            },
        }
    }

    /// The binding of `path` in the innermost scope that binds it.
    pub fn bind_ref<'s>(scopes: &'s Vec<Scope>, path: &Path) -> (r: Option<&'s Binding>)
        ensures
            match r {
                Some(b) => lookup(stack_view(scopes@), path@) == Some(b@),
                None => lookup(stack_view(scopes@), path@) is None,
            },
    {
        let mut i: usize = scopes.len();
        assert(scopes@.subrange(0, i as int) =~= scopes@);
        while i > 0
            invariant
                i <= scopes@.len(),
                lookup(stack_view(scopes@), path@) == lookup(stack_view(scopes@.subrange(0, i as int)), path@),
            decreases i,
        {
            let ghost sub = stack_view(scopes@.subrange(0, i as int));
            assert(sub.drop_last() =~= stack_view(scopes@.subrange(0, i - 1)));
            assert(sub.last() == scopes@[i - 1]@);
            match scopes[i - 1].get(path) {
                Some(b) => {
                    return Some(b);
                },
                None => {},
            }
            i = i - 1;
        }
        None
    }

    /// Rebinds `path` to `binding` in the innermost scope that binds it;
    /// reports whether some scope did.
    pub fn bind_mut(scopes: &mut Vec<Scope>, path: &Path, binding: Binding) -> (found: bool)
        ensures
            match assign(stack_view(old(scopes)@), path@, binding@) {
                Some(s) => found && stack_view(final(scopes)@) == s,
                None => !found && final(scopes)@ == old(scopes)@,
            },
    {
        let ghost val = binding@;
        let ghost original = stack_view(scopes@);
        let mut i: usize = scopes.len();
        while i > 0
            invariant
                i <= scopes@.len(),
                scopes@ == old(scopes)@,
                original == stack_view(old(scopes)@),
                val == binding@,
                forall|j: int| i <= j < scopes@.len() ==> !(#[trigger] scopes@[j]@).contains_key(path@),
            decreases i,
        {
            if scopes[i - 1].get(path).is_some() {
                let mut target = Scope::new();
                scopes.set_and_swap(i - 1, &mut target);
                let ok = target.replace(path, binding);
                scopes.set_and_swap(i - 1, &mut target);
                proof {
                    lemma_assign_at(original, path@, val, i - 1);
                    assert(stack_view(scopes@) =~= original.update(i - 1, original[i - 1].insert(path@, val)));
                }
                return true;
            }
            i = i - 1;
        }
        proof {
            lemma_assign_at(original, path@, val, -1);
        }
        false
    }

    /// Runs a top-level item.
    pub fn eval_item(environ: &mut E, m: &mut Machine, item: &Item) -> (r: Result<(), EvalError>)
        ensures
            same((at(*final(m), *final(environ)), unit_result(r)), sem_item(STEP_LIMIT as nat, at(*old(m), *old(environ)), item@)),
    {
        match item {
            Item::Bind(_, bind) => Self::eval_bind(STEP_LIMIT, environ, m, bind, InputState(0)),
            Item::Func(_, func) => Self::eval_func(m, func),
        }
    }

    /// Runs the items of a file in order, stopping at the first that fails.
    fn eval_items(environ: &mut E, m: &mut Machine, file: &File) -> (r: Result<(), EvalError>)
        ensures
            same((at(*final(m), *final(environ)), unit_result(r)), sem_items(STEP_LIMIT as nat, at(*old(m), *old(environ)), file@, 0)),
            r is Ok ==> at(*final(m), *final(environ)).scopes.len() == at(*old(m), *old(environ)).scopes.len(),
    {
        let ghost items = file@;
        let ghost target = sem_items(STEP_LIMIT as nat, at(*m, *environ), items, 0);
        let ghost depth = at(*m, *environ).scopes.len();
        let mut k: usize = 0;
        while k < file.0.len()
            invariant
                k <= file.0@.len(),
                items == file@,
                same(target, sem_items(STEP_LIMIT as nat, at(*m, *environ), items, k as int)),
                same(target, sem_items(STEP_LIMIT as nat, at(*old(m), *old(environ)), file@, 0)),
                at(*m, *environ).scopes.len() == depth,
                depth == at(*old(m), *old(environ)).scopes.len(),
            decreases file.0@.len() - k,
        {
            let ghost before = at(*m, *environ);
            match Self::eval_item(environ, m, &file.0[k]) {
                Err(e) => {
                    return Err(e);
                },
                Ok(()) => {},
            }
            proof {
                match file.0@[k as int]@ {
                    crate::syntax::SpecItem::Bind(_, b) => crate::semantics::lemma_stmt_depth(STEP_LIMIT as nat, before, crate::syntax::SpecStmt::Bind(b), 0),
                    crate::syntax::SpecItem::Func(_, f) => crate::semantics::lemma_stmt_depth(STEP_LIMIT as nat, before, crate::syntax::SpecStmt::Func(f), 0),
                }
            }
            k = k + 1;
        }
        Ok(())
    }

    /// Prepares a parsed program: runs its items, then adds the built-ins.
    ///
    /// When an item is invalid the program has no scopes and does nothing
    /// from then on; a fault is reported.
    pub fn prepare(&mut self, file: &File) -> (r: Result<(), EvalError>)
        ensures
            final(self).compiler == old(self).compiler,
            final(self).input == old(self).input,
            ({
                let (s, res) = sem_prepare(file@, old(self).environ.requests());
                &&& same(final(self).environ.requests(), s.effects)
                &&& match res {
                    Ok(_) => r is Ok && (final(self).scopes matches Some(sc) && same(stack_view(sc@), s.scopes)),
                    Err(SpecError::Invalid) => r is Ok && final(self).scopes is None,
                    Err(x) => final(self).scopes is None && (r matches Err(e) && same(e@, x)),
                }
            }),
    {
        let mut scopes: Vec<Scope> = Vec::new();
        scopes.push(Scope::new());
        let mut m = Machine { scopes: scopes };
        assert(at(m, self.environ).scopes =~= initial_state(self.environ.requests()).scopes);
        let failure = match Self::eval_items(&mut self.environ, &mut m, file) {
            Ok(()) => None,
            Err(e) => Some(e),
        };
        match failure {
            Some(EvalError::Invalid) => {
                self.scopes = None;
                Ok(())
            },
            Some(e) => {
                self.scopes = None;
                Err(e)
            },
            None => {
                let ghost s = at(m, self.environ);
                let mut top = m.scopes.pop().unwrap();
                add_builtins(&mut top);
                m.scopes.push(top);
                assert(stack_view(m.scopes@) =~= s.scopes.update(s.scopes.len() - 1, install_builtins(s.scopes.last())));
                self.scopes = Some(m.scopes);
                Ok(())
            },
        }
    }

    /// Renders one frame with the given buttons pressed: runs the program's
    /// `render(window: Window, input: Input)` function, if it has one of
    /// that shape.
    ///
    /// A run that fails returns its error, and the program keeps the scopes
    /// it had when it failed; a host that must stop on a failed frame does
    /// so on that error (the C interface panics with "RUNTIME ERROR!" or
    /// the fault's message).
    pub fn render(&mut self, input: InputState) -> (r: Result<(), EvalError>)
        ensures
            final(self).compiler == old(self).compiler,
            final(self).input == old(self).input,
            match old(self).scopes {
                None => r is Ok && final(self).scopes is None && final(self).environ.requests()
                    == old(self).environ.requests(),
                Some(sc) => {
                    let (s, res) = sem_render(
                        crate::semantics::SState {
                            scopes: stack_view(sc@),
                            effects: old(self).environ.requests(),
                        },
                        input.0,
                    );
                    &&& final(self).scopes matches Some(x) && same(stack_view(x@), s.scopes)
                    &&& same(final(self).environ.requests(), s.effects)
                    &&& same(unit_result(r), res)
                },
            },
    {
        let scopes = match self.scopes.take() {
            None => {
                return Ok(());
            },
            Some(scopes) => scopes,
        };
        let mut m = Machine { scopes: scopes };
        let r = Self::render_in(&mut self.environ, &mut m, input);
        self.scopes = Some(m.scopes);
        r
    }

    /// Calls `render` in the given machine.
    fn render_in(environ: &mut E, m: &mut Machine, input: InputState) -> (r: Result<(), EvalError>)
        ensures
            same((at(*final(m), *final(environ)), unit_result(r)), sem_render(at(*old(m), *old(environ)), input.0)),
    {
        let render_path = path1("render");
        let func = match Self::bind_ref(&m.scopes, &render_path) {
            Some(Binding::Func(func)) => copy_func(func),
            _ => {
                return Ok(());
            },
        };
        if func.2.len() < 2 {
            return Ok(());
        }
        let window_path = path1("Window");
        let input_path = path1("Input");
        if !func.2[0].1.same(&window_path) || !func.2[1].1.same(&input_path) {
            return Ok(());
        }
        let ghost params = func@.params;
        let mut frame = Scope::new();
        let hole = "_".to_owned();
        if !(func.2[0].0.0 == hole) {
            frame.insert(Path::single(func.2[0].0.copy()), Binding::Value(false, Value::Window));
        }
        if !(func.2[1].0.0 == hole) {
            frame.insert(Path::single(func.2[1].0.copy()), Binding::Value(false, Value::Input));
        }
        assert(frame@ == render_frame(params));
        let ghost s0 = at(*m, *environ);
        m.scopes.push(frame);
        assert(at(*m, *environ).scopes =~= s0.scopes.push(render_frame(params)));
        let ghost s1 = at(*m, *environ);
        match Self::eval_body(STEP_LIMIT, environ, m, &func.3, input) {
            Err(e) => Err(e),
            Ok(_) => {
                let ghost s2 = at(*m, *environ);
                proof {
                    crate::semantics::lemma_body_depth(STEP_LIMIT as nat, s1, func@.body, 0, input.0);
                }
                m.scopes.pop();
                assert(at(*m, *environ).scopes =~= s2.scopes.drop_last());
                Ok(())
            },
        }
    }
}

impl<E: Environ> Backend<E> {
    /// The value of a numeric operator on two numbers.
    fn num_op(expr: &Expr, x: isize, y: isize) -> (r: Result<Value, EvalError>)
        ensures
            value_result(r) == num_op(expr@, x, y),
    {
        proof {
            reveal(num_op);
        }
        match expr {
            Expr::Add(_, _) => match x.checked_add(y) {
                Some(v) => Ok(Value::Num(Num(v))),
                None => Err(EvalError::Overflow),
            },
            Expr::Sub(_, _) => match x.checked_sub(y) {
                Some(v) => Ok(Value::Num(Num(v))),
                None => Err(EvalError::Overflow),
            },
            Expr::Mul(_, _) => match x.checked_mul(y) {
                Some(v) => Ok(Value::Num(Num(v))),
                None => Err(EvalError::Overflow),
            },
            Expr::Div(_, _) => if y == 0 {
                Err(EvalError::DivisionByZero)
            } else {
                match x.checked_div(y) {
                    Some(v) => Ok(Value::Num(Num(v))),
                    None => Err(EvalError::Overflow),
                }
            },
            Expr::Mod(_, _) => if y == 0 {
                Err(EvalError::DivisionByZero)
            } else {
                match x.checked_rem(y) {
                    Some(v) => Ok(Value::Num(Num(v))),
                    None => Err(EvalError::Overflow),
                }
            },
            Expr::BitShl(_, _) => if y < 0 || y >= usize::BITS as isize {
                Err(EvalError::ShiftOverflow)
            } else {
                Ok(Value::Num(Num(x.wrapping_shl(y as u32))))
            },
            Expr::BitAnd(_, _) => Ok(Value::Num(Num(x & y))),
            Expr::BitOrr(_, _) => Ok(Value::Num(Num(x | y))),
            Expr::Ord(negate, order, _, _) => {
                let holds = match order {
                    Order::Less => x < y,
                    Order::Equal => x == y,
                    Order::Greater => x > y,
                };
                Ok(Value::Bool(if *negate { !holds } else { holds }))
            },
            _ => Err(EvalError::Invalid),
        }
    }

    /// The value of a binary operator on two operand values.
    fn apply_binary(expr: &Expr, a: Value, b: Value) -> (r: Result<Value, EvalError>)
        ensures
            value_result(r) == binary_op(expr@, a@, b@),
    {
        proof {
            reveal(binary_op);
        }
        match expr {
            Expr::And(_, _) => match (a, b) {
                (Value::Bool(x), Value::Bool(y)) => Ok(Value::Bool(x && y)),
                _ => Err(EvalError::Invalid),
            },
            Expr::Orr(_, _) => match (a, b) {
                (Value::Bool(x), Value::Bool(y)) => Ok(Value::Bool(x || y)),
                _ => Err(EvalError::Invalid),
            },
            _ => match (a, b) {
                (Value::Num(x), Value::Num(y)) => Self::num_op(expr, x.0, y.0),
                _ => Err(EvalError::Invalid),
            },
        }
    }

    /// Evaluates an expression.
    pub fn eval_expr(fuel: u64, environ: &mut E, m: &mut Machine, expr: &Expr, input: InputState) -> (r: Result<Value, EvalError>)
        ensures
            same((at(*final(m), *final(environ)), value_result(r)), sem_expr(fuel as nat, at(*old(m), *old(environ)), expr@, input.0)),
        decreases fuel, 0int, expr, 2int,
    {
        match expr {
            Expr::Prim(p) => Self::eval_prim(fuel, environ, m, p, input),
            Expr::Comp(p) => match Self::eval_prim(fuel, environ, m, p, input) {
                Ok(Value::Bool(b)) => Ok(Value::Bool(!b)),
                Ok(_) => Err(EvalError::Invalid),
                Err(e) => Err(e),
            },
            Expr::BitNot(p) => match Self::eval_prim(fuel, environ, m, p, input) {
                Ok(Value::Num(n)) => {
                    let x = n.0;
                    let k = -1 - x;
                    assert(!x == k) by (bit_vector)
                        requires
                            k == -1 - x,
                    ;
                    Ok(Value::Num(Num(k)))
                },
                Ok(_) => Err(EvalError::Invalid),
                Err(e) => Err(e),
            },
            _ => match Self::eval_operands(fuel, environ, m, expr, input) {
                Ok((a, b)) => Self::apply_binary(expr, a, b),
                Err(e) => Err(e),
            },
        }
    }

    /// Evaluates the two operands of a binary expression.
    fn eval_operands(fuel: u64, environ: &mut E, m: &mut Machine, expr: &Expr, input: InputState) -> (r: Result<(Value, Value), EvalError>)
        ensures
            ({
                let (s, res) = sem_operands(fuel as nat, at(*old(m), *old(environ)), expr@, input.0);
                &&& same(at(*final(m), *final(environ)), s)
                &&& match r {
                    Ok((a, b)) => same(res, Ok::<(SpecValue, SpecValue), SpecError>((a@, b@))),
                    Err(e) => same(res, Err::<(SpecValue, SpecValue), SpecError>(e@)),
                }
            }),
        decreases fuel, 0int, expr, 1int,
    {
        let (l, r) = match expr {
            Expr::And(l, r) => (l, r),
            Expr::Orr(l, r) => (l, r),
            Expr::Add(l, r) => (l, r),
            Expr::Sub(l, r) => (l, r),
            Expr::Mul(l, r) => (l, r),
            Expr::Div(l, r) => (l, r),
            Expr::Mod(l, r) => (l, r),
            Expr::BitShl(l, r) => (l, r),
            Expr::BitAnd(l, r) => (l, r),
            Expr::BitOrr(l, r) => (l, r),
            Expr::Ord(_, _, l, r) => (l, r),
            _ => {
                return Err(EvalError::Invalid);
            },
        };
        let r1 = Self::eval_prim(fuel, environ, m, l, input);
        let left = match r1 {
            Err(EvalError::Invalid) => None,
            Err(e) => {
                return Err(e);
            },
            Ok(v) => Some(v),
        };
        let r2 = Self::eval_prim(fuel, environ, m, r, input);
        let right = match r2 {
            Err(EvalError::Invalid) => None,
            Err(e) => {
                return Err(e);
            },
            Ok(v) => Some(v),
        };
        match (left, right) {
            (Some(a), Some(b)) => Ok((a, b)),
            _ => Err(EvalError::Invalid),
        }
    }

    /// Evaluates a primary expression.
    pub fn eval_prim(fuel: u64, environ: &mut E, m: &mut Machine, prim: &Prim, input: InputState) -> (r: Result<Value, EvalError>)
        ensures
            same((at(*final(m), *final(environ)), value_result(r)), sem_prim(fuel as nat, at(*old(m), *old(environ)), prim@, input.0)),
        decreases fuel, 0int, prim, 0int,
    {
        match prim {
            Prim::Arr(arr) => {
                let mut items: Vec<Value> = Vec::new();
                let mut i: usize = 0;
                while i < arr.0
                    invariant
                        i <= arr.0,
                        items@.len() == i,
                        forall|j: int| 0 <= j < i ==> (#[trigger] items@[j])@ == SpecValue::Num(0),
                    decreases arr.0 - i,
                {
                    items.push(Value::Num(Num(0)));
                    i = i + 1;
                }
                let v = Value::Arr(items);
                proof {
                    assert(v@->Arr_0 =~= zeroes(arr.0));
                }
                Ok(v)
            },
            Prim::Num(num) => Ok(Value::Num(Num(num.0))),
            Prim::Str(s) => Ok(Value::Str(Str(s.0.clone()))),
            Prim::Bool(b) => Ok(Value::Bool(*b)),
            Prim::Path(path) => Self::eval_path(&m.scopes, path),
            Prim::Call(call) => Self::eval_call(fuel, environ, m, call, input),
            Prim::Sect(expr) => Self::eval_expr(fuel, environ, m, expr, input),
        }
    }

    /// The value bound to a path: `Invalid` where nothing binds it, and
    /// `Undefined` where it names a function or a built-in rather than a
    /// value, which is a fault that ends the run.
    pub fn eval_path(scopes: &Vec<Scope>, path: &Path) -> (r: Result<Value, EvalError>)
        ensures
            value_result(r) == sem_prim(0, SState { scopes: stack_view(scopes@), effects: Seq::empty() }, crate::syntax::SpecPrim::Path(path@), 0).1,
    {
        match Self::bind_ref(scopes, path) {
            None => Err(EvalError::Invalid),
            Some(Binding::Value(_, v)) => Ok(copy_value(v)),
            Some(_) => Err(EvalError::Undefined(path.copy())),
        }
    }

    /// Evaluates a call.
    pub fn eval_call(fuel: u64, environ: &mut E, m: &mut Machine, call: &Call, input: InputState) -> (r: Result<Value, EvalError>)
        ensures
            same((at(*final(m), *final(environ)), value_result(r)), sem_call(fuel as nat, at(*old(m), *old(environ)), call@, input.0)),
        decreases fuel, 0int, call, 0int,
    {
        let func = match Self::bind_ref(&m.scopes, &call.0) {
            None => {
                return Err(EvalError::Invalid);
            },
            Some(Binding::Value(_, _)) => {
                return Err(EvalError::Invalid);
            },
            Some(Binding::Intrinsic(which)) => {
                let which = *which;
                return Self::eval_intrinsic(fuel, environ, m, which, &call.1, input);
            },
            Some(Binding::Func(func)) => copy_func(func),
        };
        Self::eval_invoke(fuel, environ, m, &func.2, &func.3, &call.1, input)
    }

    /// Calls a user function with argument expressions.
    #[verifier::rlimit(100)]
    fn eval_invoke(
        fuel: u64,
        environ: &mut E,
        m: &mut Machine,
        params: &Vec<(Name, Path)>,
        body: &Body,
        args: &Vec<Expr>,
        input: InputState,
    ) -> (r: Result<Value, EvalError>)
        ensures
            same((at(*final(m), *final(environ)), value_result(r)), sem_invoke(fuel as nat, at(*old(m), *old(environ)), params_view(params@), body@, exprs_view(args@), input.0)),
        decreases fuel, 0int, args, args@.len() + 2,
    {
        if fuel == 0 {
            return Err(EvalError::Exhausted);
        }
        let frame = match Self::eval_args(fuel, environ, m, params, args, input) {
            Ok(frame) => frame,
            Err(e) => {
                return Err(e);
            },
        };
        let ghost s1 = at(*m, *environ);
        let ghost fv = frame@;
        m.scopes.push(frame);
        assert(at(*m, *environ).scopes =~= s1.scopes.push(fv));
        let ghost s2 = at(*m, *environ);
        assert(s2 == crate::semantics::with_scopes(s1, s1.scopes.push(fv)));
        let body_result = Self::eval_body_inner(fuel - 1, environ, m, body, input);
        match body_result {
            Err(e) => Err(e),
            Ok(v) => {
                let ghost s3 = at(*m, *environ);
                proof {
                    crate::semantics::lemma_body_depth((fuel - 1) as nat, s2, body@, 0, input.0);
                }
                m.scopes.pop();
                assert(at(*m, *environ).scopes =~= s3.scopes.drop_last());
                assert(at(*m, *environ) == crate::semantics::with_scopes(s3, s3.scopes.drop_last()));
                match v {
                    Some(v) => Ok(v),
                    None => Ok(Value::Unit),
                }
            },
        }
    }

    /// Evaluates the arguments of a user-function call into the frame of
    /// its parameters.
    #[verifier::rlimit(40)]
    fn eval_args(
        fuel: u64,
        environ: &mut E,
        m: &mut Machine,
        params: &Vec<(Name, Path)>,
        args: &Vec<Expr>,
        input: InputState,
    ) -> (r: Result<Scope, EvalError>)
        ensures
            same((at(*final(m), *final(environ)), frame_result(r)), sem_args(fuel as nat, at(*old(m), *old(environ)), params_view(params@), exprs_view(args@), 0, Map::empty(), input.0)),
        decreases fuel, 0int, args, args@.len() + 1,
    {
        let ghost pv = params_view(params@);
        let ghost av = exprs_view(args@);
        let ghost target = sem_args(fuel as nat, at(*m, *environ), pv, av, 0, Map::empty(), input.0);
        let mut frame = Scope::new();
        let mut k: usize = 0;
        while k < params.len() && k < args.len()
            invariant
                k <= args@.len(),
                pv == params_view(params@),
                av == exprs_view(args@),
                same(target, sem_args(fuel as nat, at(*m, *environ), pv, av, k as int, frame@, input.0)),
                same(target, sem_args(fuel as nat, at(*old(m), *old(environ)), params_view(params@), exprs_view(args@), 0, Map::empty(), input.0)),
            decreases args@.len() - k,
        {
            assert(decreases_to!(args => args@[k as int]));
            match Self::eval_expr(fuel, environ, m, &args[k], input) {
                Err(e) => {
                    return Err(e);
                },
                Ok(v) => {
                    let name = params[k].0.copy();
                    frame.insert(Path::single(name), Binding::Value(false, v));
                },
            }
            k = k + 1;
        }
        Ok(frame)
    }

    /// Evaluates the argument at position `k`.
    fn eval_arg(fuel: u64, environ: &mut E, m: &mut Machine, args: &Vec<Expr>, k: usize, input: InputState) -> (r: Result<Value, EvalError>)
        ensures
            same((at(*final(m), *final(environ)), value_result(r)), sem_arg(fuel as nat, at(*old(m), *old(environ)), exprs_view(args@), k as int, input.0)),
        decreases fuel, 0int, args, 0int,
    {
        if k < args.len() {
            assert(decreases_to!(args => args@[k as int]));
            Self::eval_expr(fuel, environ, m, &args[k], input)
        } else {
            Err(EvalError::Invalid)
        }
    }

    /// Evaluates a call of a built-in.
    fn eval_intrinsic(
        fuel: u64,
        environ: &mut E,
        m: &mut Machine,
        which: Intrinsic,
        args: &Vec<Expr>,
        input: InputState,
    ) -> (r: Result<Value, EvalError>)
        ensures
            same((at(*final(m), *final(environ)), value_result(r)), sem_intrinsic(fuel as nat, at(*old(m), *old(environ)), which, exprs_view(args@), input.0)),
        decreases fuel, 0int, args, 3int,
    {
        match which {
            Intrinsic::Draw => Self::eval_draw(fuel, environ, m, args, input),
            Intrinsic::Pressed => Self::eval_pressed(fuel, environ, m, args, input),
            Intrinsic::ArrayGet => Self::eval_array_get(fuel, environ, m, args, input),
            Intrinsic::ArraySet => Self::eval_array_set(fuel, environ, m, args, input),
            Intrinsic::CharCode => Self::eval_char_code(fuel, environ, m, args, input),
            Intrinsic::LoadTilemap => Self::eval_load_tilemap(fuel, environ, m, args, input),
        }
    }

    /// `Window.draw(window, tile, x, y)`.
    fn eval_draw(fuel: u64, environ: &mut E, m: &mut Machine, args: &Vec<Expr>, input: InputState) -> (r: Result<Value, EvalError>)
        ensures
            same((at(*final(m), *final(environ)), value_result(r)), crate::semantics::sem_draw(fuel as nat, at(*old(m), *old(environ)), exprs_view(args@), input.0)),
        decreases fuel, 0int, args, 2int,
    {
        match Self::eval_arg(fuel, environ, m, args, 0, input) {
            Err(e) => {
                return Err(e);
            },
            Ok(Value::Window) => {},
            Ok(_) => {
                return Err(EvalError::Invalid);
            },
        }
        let tile = match Self::eval_arg(fuel, environ, m, args, 1, input) {
            Err(e) => {
                return Err(e);
            },
            Ok(Value::Num(n)) => n.0,
            Ok(_) => {
                return Err(EvalError::Invalid);
            },
        };
        let x = match Self::eval_arg(fuel, environ, m, args, 2, input) {
            Err(e) => {
                return Err(e);
            },
            Ok(Value::Num(n)) => n.0,
            Ok(_) => {
                return Err(EvalError::Invalid);
            },
        };
        let y = match Self::eval_arg(fuel, environ, m, args, 3, input) {
            Err(e) => {
                return Err(e);
            },
            Ok(Value::Num(n)) => n.0,
            Ok(_) => {
                return Err(EvalError::Invalid);
            },
        };
        environ.draw_tile(tile as u32, x as u32, y as u32);
        Ok(Value::Unit)
    }

    /// `Input.pressed(input, button)`.
    fn eval_pressed(fuel: u64, environ: &mut E, m: &mut Machine, args: &Vec<Expr>, input: InputState) -> (r: Result<Value, EvalError>)
        ensures
            same((at(*final(m), *final(environ)), value_result(r)), crate::semantics::sem_pressed(fuel as nat, at(*old(m), *old(environ)), exprs_view(args@), input.0)),
        decreases fuel, 0int, args, 2int,
    {
        match Self::eval_arg(fuel, environ, m, args, 0, input) {
            Err(e) => {
                return Err(e);
            },
            Ok(Value::Input) => {},
            Ok(_) => {
                return Err(EvalError::Invalid);
            },
        }
        let button = match Self::eval_arg(fuel, environ, m, args, 1, input) {
            Err(e) => {
                return Err(e);
            },
            Ok(Value::Num(n)) => n.0,
            Ok(_) => {
                return Err(EvalError::Invalid);
            },
        };
        if button < 0 || button > 5 {
            return Err(EvalError::Invalid);
        }
        Ok(Value::Bool(input.0 & (1u8 << (button as u8)) != 0))
    }

    /// `Array.get(array, index)`.
    fn eval_array_get(fuel: u64, environ: &mut E, m: &mut Machine, args: &Vec<Expr>, input: InputState) -> (r: Result<Value, EvalError>)
        ensures
            same((at(*final(m), *final(environ)), value_result(r)), crate::semantics::sem_array_get(fuel as nat, at(*old(m), *old(environ)), exprs_view(args@), input.0)),
        decreases fuel, 0int, args, 2int,
    {
        let items = match Self::eval_arg(fuel, environ, m, args, 0, input) {
            Err(e) => {
                return Err(e);
            },
            Ok(Value::Arr(items)) => items,
            Ok(_) => {
                return Err(EvalError::Invalid);
            },
        };
        let idx = match Self::eval_arg(fuel, environ, m, args, 1, input) {
            Err(e) => {
                return Err(e);
            },
            Ok(Value::Num(n)) => n.0,
            Ok(_) => {
                return Err(EvalError::Invalid);
            },
        };
        if idx < 0 {
            return Err(EvalError::Invalid);
        }
        if idx as usize >= items.len() {
            return Err(EvalError::ArrayGetOutOfBounds(items.len(), idx as usize));
        }
        Ok(copy_value(&items[idx as usize]))
    }

    /// `Array.set(array, index, value)`.
    fn eval_array_set(fuel: u64, environ: &mut E, m: &mut Machine, args: &Vec<Expr>, input: InputState) -> (r: Result<Value, EvalError>)
        ensures
            same((at(*final(m), *final(environ)), value_result(r)), crate::semantics::sem_array_set(fuel as nat, at(*old(m), *old(environ)), exprs_view(args@), input.0)),
        decreases fuel, 0int, args, 2int,
    {
        let mut items = match Self::eval_arg(fuel, environ, m, args, 0, input) {
            Err(e) => {
                return Err(e);
            },
            Ok(Value::Arr(items)) => items,
            Ok(_) => {
                return Err(EvalError::Invalid);
            },
        };
        let idx = match Self::eval_arg(fuel, environ, m, args, 1, input) {
            Err(e) => {
                return Err(e);
            },
            Ok(Value::Num(n)) => n.0,
            Ok(_) => {
                return Err(EvalError::Invalid);
            },
        };
        let val = match Self::eval_arg(fuel, environ, m, args, 2, input) {
            Err(e) => {
                return Err(e);
            },
            Ok(v) => v,
        };
        if idx < 0 {
            return Err(EvalError::Invalid);
        }
        if idx as usize >= items.len() {
            return Err(EvalError::ArraySetOutOfBounds(items.len(), idx as usize));
        }
        Ok(array_with(items, idx as usize, val))
    }

    /// `String.char_code(string, index)`.
    fn eval_char_code(fuel: u64, environ: &mut E, m: &mut Machine, args: &Vec<Expr>, input: InputState) -> (r: Result<Value, EvalError>)
        ensures
            same((at(*final(m), *final(environ)), value_result(r)), crate::semantics::sem_char_code(fuel as nat, at(*old(m), *old(environ)), exprs_view(args@), input.0)),
        decreases fuel, 0int, args, 2int,
    {
        let s = match Self::eval_arg(fuel, environ, m, args, 0, input) {
            Err(e) => {
                return Err(e);
            },
            Ok(Value::Str(s)) => s,
            Ok(_) => {
                return Err(EvalError::Invalid);
            },
        };
        let idx = match Self::eval_arg(fuel, environ, m, args, 1, input) {
            Err(e) => {
                return Err(e);
            },
            Ok(Value::Num(n)) => n.0,
            Ok(_) => {
                return Err(EvalError::Invalid);
            },
        };
        if idx < 0 {
            return Err(EvalError::CharCodeIndex(idx));
        }
        let bytes = s.0.as_str().as_bytes();
        if idx as usize >= bytes.len() {
            return Err(EvalError::CharCodeOutOfRange(bytes.len(), idx as usize));
        }
        Ok(Value::Num(Num(bytes[idx as usize] as isize)))
    }

    /// `Window.load_tilemap(window, tiles)`.
    fn eval_load_tilemap(fuel: u64, environ: &mut E, m: &mut Machine, args: &Vec<Expr>, input: InputState) -> (r: Result<Value, EvalError>)
        ensures
            same((at(*final(m), *final(environ)), value_result(r)), crate::semantics::sem_load_tilemap(fuel as nat, at(*old(m), *old(environ)), exprs_view(args@), input.0)),
        decreases fuel, 0int, args, 2int,
    {
        match Self::eval_arg(fuel, environ, m, args, 0, input) {
            Err(e) => {
                return Err(e);
            },
            Ok(Value::Window) => {},
            Ok(_) => {
                return Err(EvalError::Invalid);
            },
        }
        let s = match Self::eval_arg(fuel, environ, m, args, 1, input) {
            Err(e) => {
                return Err(e);
            },
            Ok(Value::Str(s)) => s,
            Ok(_) => {
                return Err(EvalError::Invalid);
            },
        };
        environ.load_tile(&s.0);
        Ok(Value::Unit)
    }

    /// Runs the statements of a body: `Ok(None)` when it runs to its end,
    /// `Ok(Some(v))` when a statement returns `v`.
    #[verifier::rlimit(40)]
    pub fn eval_body_inner(fuel: u64, environ: &mut E, m: &mut Machine, body: &Body, input: InputState) -> (r: Result<Option<Value>, EvalError>)
        ensures
            same((at(*final(m), *final(environ)), flow_result(r)), sem_body(fuel as nat, at(*old(m), *old(environ)), body@, 0, input.0)),
        decreases fuel, 2int, body, 0int,
    {
        let ghost sv = stmts_view(body.0@);
        let ghost target = sem_body(fuel as nat, at(*m, *environ), sv, 0, input.0);
        let mut k: usize = 0;
        while k < body.0.len()
            invariant
                k <= body.0@.len(),
                sv == stmts_view(body.0@),
                same(target, sem_body(fuel as nat, at(*m, *environ), sv, k as int, input.0)),
                same(target, sem_body(fuel as nat, at(*old(m), *old(environ)), body@, 0, input.0)),
            decreases body.0@.len() - k,
        {
            assert(decreases_to!(body => body.0));
            assert(decreases_to!(body.0 => body.0@[k as int]));
            match Self::eval_stmt(fuel, environ, m, &body.0[k], input) {
                Err(e) => {
                    return Err(e);
                },
                Ok(Some(v)) => {
                    return Ok(Some(v));
                },
                Ok(None) => {},
            }
            k = k + 1;
        }
        Ok(None)
    }

    /// Runs a body; one that runs to its end gives the unit value.
    pub fn eval_body(fuel: u64, environ: &mut E, m: &mut Machine, body: &Body, input: InputState) -> (r: Result<Value, EvalError>)
        ensures
            ({
                let (s, res) = sem_body(fuel as nat, at(*old(m), *old(environ)), body@, 0, input.0);
                &&& same(at(*final(m), *final(environ)), s)
                &&& same(value_result(r), match res {
                    Ok(Some(v)) => Ok(v),
                    Ok(None) => Ok(SpecValue::Unit),
                    Err(e) => Err::<SpecValue, SpecError>(e),
                })
            }),
        decreases fuel, 2int, body, 1int,
    {
        match Self::eval_body_inner(fuel, environ, m, body, input) {
            Ok(Some(v)) => Ok(v),
            Ok(None) => Ok(Value::Unit),
            Err(e) => Err(e),
        }
    }

    /// Runs a statement.
    pub fn eval_stmt(fuel: u64, environ: &mut E, m: &mut Machine, stmt: &Stmt, input: InputState) -> (r: Result<Option<Value>, EvalError>)
        ensures
            same((at(*final(m), *final(environ)), flow_result(r)), sem_stmt(fuel as nat, at(*old(m), *old(environ)), stmt@, input.0)),
        decreases fuel, 2int, stmt, 1int,
    {
        match stmt {
            Stmt::Bind(bind) => match Self::eval_bind(fuel, environ, m, bind, input) {
                Ok(()) => Ok(None),
                Err(e) => Err(e),
            },
            Stmt::Assn(assn) => match Self::eval_assn(fuel, environ, m, assn, input) {
                Ok(()) => Ok(None),
                Err(e) => Err(e),
            },
            Stmt::Func(func) => match Self::eval_func(m, func) {
                Ok(()) => Ok(None),
                Err(e) => Err(e),
            },
            Stmt::Call(call) => match Self::eval_call(fuel, environ, m, call, input) {
                Ok(_) => Ok(None),
                Err(e) => Err(e),
            },
            Stmt::Cond(cond) => Self::eval_cond(fuel, environ, m, cond, input),
            Stmt::Loop(fold) => Self::eval_fold(fuel, environ, m, fold, input),
            Stmt::Ret(None) => Ok(Some(Value::Unit)),
            Stmt::Ret(Some(expr)) => match Self::eval_expr(fuel, environ, m, expr, input) {
                Ok(v) => Ok(Some(v)),
                Err(e) => Err(e),
            },
        }
    }

    /// Runs a binding statement.
    pub fn eval_bind(fuel: u64, environ: &mut E, m: &mut Machine, bind: &Bind, input: InputState) -> (r: Result<(), EvalError>)
        ensures
            same((at(*final(m), *final(environ)), unit_result(r)), sem_stmt(fuel as nat, at(*old(m), *old(environ)), crate::syntax::SpecStmt::Bind(bind@), input.0)),
        decreases fuel, 1int, bind, 0int,
    {
        let (name, mutable, expr) = match bind {
            Bind::Let(name, _, expr) => (name, false, expr),
            Bind::Var(name, _, expr) => (name, true, expr),
        };
        let ghost st0 = at(*m, *environ);
        assert(bind@.expr == expr@);
        let value = match Self::eval_expr(fuel, environ, m, expr, input) {
            Ok(v) => v,
            Err(e) => {
                assert(sem_expr(fuel as nat, st0, expr@, input.0) == (at(*m, *environ), Err::<SpecValue, SpecError>(e@)));
                assert(sem_stmt(fuel as nat, st0, crate::syntax::SpecStmt::Bind(bind@), input.0) == (at(*m, *environ), Err::<Option<SpecValue>, SpecError>(e@)));
                return Err(e);
            },
        };
        if bind_last(&mut m.scopes, Path::single(name.copy()), Binding::Value(mutable, value)) {
            Ok(())
        } else {
            Err(EvalError::Invalid)
        }
    }

    /// Runs an assignment statement.
    pub fn eval_assn(fuel: u64, environ: &mut E, m: &mut Machine, assn: &Assn, input: InputState) -> (r: Result<(), EvalError>)
        ensures
            same((at(*final(m), *final(environ)), unit_result(r)), sem_stmt(fuel as nat, at(*old(m), *old(environ)), crate::syntax::SpecStmt::Assn(assn.0@, assn.1@), input.0)),
        decreases fuel, 1int, assn, 0int,
    {
        let value = match Self::eval_expr(fuel, environ, m, &assn.1, input) {
            Ok(v) => v,
            Err(e) => {
                return Err(e);
            },
        };
        let path = Path::single(assn.0.copy());
        if Self::bind_mut(&mut m.scopes, &path, Binding::Value(true, value)) {
            Ok(())
        } else {
            Err(EvalError::Invalid)
        }
    }

    /// Runs a function definition.
    pub fn eval_func(m: &mut Machine, func: &Func) -> (r: Result<(), EvalError>)
        ensures
            match bind_top(stack_view(old(m).scopes@), single(func@.name), SpecBinding::Func(func@)) {
                Some(sc) => r is Ok && stack_view(final(m).scopes@) == sc,
                None => r == Err::<(), EvalError>(EvalError::Invalid) && final(m).scopes@ == old(m).scopes@,
            },
    {
        if bind_last(&mut m.scopes, Path::single(func.0.copy()), Binding::Func(copy_func(func))) {
            Ok(())
        } else {
            Err(EvalError::Invalid)
        }
    }

    /// Runs a conditional statement.
    pub fn eval_cond(fuel: u64, environ: &mut E, m: &mut Machine, cond: &Cond, input: InputState) -> (r: Result<Option<Value>, EvalError>)
        ensures
            same((at(*final(m), *final(environ)), flow_result(r)), sem_stmt(fuel as nat, at(*old(m), *old(environ)), crate::syntax::SpecStmt::Cond(cond.0@, cond.1@), input.0)),
        decreases fuel, 2int, cond, 0int,
    {
        match Self::eval_expr(fuel, environ, m, &cond.0, input) {
            Err(e) => Err(e),
            Ok(Value::Bool(true)) => Self::eval_body_inner(fuel, environ, m, &cond.1, input),
            Ok(Value::Bool(false)) => Ok(None),
            Ok(_) => Err(EvalError::Invalid),
        }
    }

    /// Runs a loop statement.
    #[verifier::rlimit(40)]
    pub fn eval_fold(fuel: u64, environ: &mut E, m: &mut Machine, fold: &Loop, input: InputState) -> (r: Result<Option<Value>, EvalError>)
        ensures
            same((at(*final(m), *final(environ)), flow_result(r)), sem_loop(fuel as nat, at(*old(m), *old(environ)), fold.0@, fold.1@, input.0)),
        decreases fuel, 2int, fold, 0int,
    {
        let ghost target = sem_loop(fuel as nat, at(*m, *environ), fold.0@, fold.1@, input.0);
        let mut f: u64 = fuel;
        loop
            invariant
                f <= fuel,
                same(target, sem_loop(f as nat, at(*m, *environ), fold.0@, fold.1@, input.0)),
                same(target, sem_loop(fuel as nat, at(*old(m), *old(environ)), fold.0@, fold.1@, input.0)),
            decreases f,
        {
            if f == 0 {
                return Err(EvalError::Exhausted);
            }
            match Self::eval_expr(f - 1, environ, m, &fold.0, input) {
                Err(e) => {
                    return Err(e);
                },
                Ok(Value::Bool(false)) => {
                    return Ok(None);
                },
                Ok(Value::Bool(true)) => {},
                Ok(_) => {
                    return Err(EvalError::Invalid);
                },
            }
            match Self::eval_body_inner(f - 1, environ, m, &fold.1, input) {
                Err(e) => {
                    return Err(e);
                },
                Ok(Some(v)) => {
                    return Ok(Some(v));
                },
                Ok(None) => {},
            }
            f = f - 1;
        }
    }
}

} // verus!
