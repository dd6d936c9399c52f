use tilescript::backend::{Backend, Environ, Requests, StartError};
use tilescript::compiler::Compiler;
use tilescript::value::{Binding, EvalError, InputState, Intrinsic};

#[derive(Default)]
struct Recorder {
    calls: Vec<String>,
}

impl Environ for Recorder {
    fn requests(&self) -> Requests {
        panic!("the request model exists for verification only")
    }

    fn action_one(&mut self, value: u32) {
        self.calls.push(format!("one {}", value));
    }

    fn action_two(&mut self, value: u32) {
        self.calls.push(format!("two {}", value));
    }

    fn draw_tile(&mut self, tile: u32, x: u32, y: u32) {
        self.calls.push(format!("draw {} {} {}", tile, x, y));
    }

    fn load_tile(&mut self, tiles: &String) {
        self.calls.push(format!("load {}", tiles));
    }
}

fn start(main: &str) -> Result<Backend<Recorder>, StartError> {
    let mut compiler = Compiler::new();
    assert_eq!(compiler.load_module("main", main), Some(()));
    Backend::new(compiler, Recorder::default())
}

#[test]
fn render_draws_a_tile() {
    let mut b = start("def render(window: Window, input: Input) -> Unit:\n    Window.draw(window, 3, 4, 5)\n").unwrap();
    assert!(b.scopes.is_some());
    assert!(b.render(InputState(0)).is_ok());
    assert_eq!(b.environ.calls, vec!["draw 3 4 5".to_string()]);
}

#[test]
fn top_level_variable_persists_between_frames() {
    let src = "var count := 0\ndef render(window: Window, input: Input) -> Unit:\n    count = count + 1\n    Window.draw(window, count, 0, 0)\n";
    let mut b = start(src).unwrap();
    assert!(b.render(InputState(0)).is_ok());
    assert!(b.render(InputState(0)).is_ok());
    assert_eq!(b.environ.calls, vec!["draw 1 0 0".to_string(), "draw 2 0 0".to_string()]);
}

#[test]
fn pressed_reads_the_input_bits() {
    let src = "def render(window: Window, input: Input) -> Unit:\n    if Input.pressed(input, Input.UP):\n        Window.draw(window, 1, 0, 0)\n";
    let mut b = start(src).unwrap();
    assert!(b.render(InputState(0)).is_ok());
    assert!(b.environ.calls.is_empty());
    assert!(b.render(InputState(8)).is_ok());
    assert_eq!(b.environ.calls, vec!["draw 1 0 0".to_string()]);
}

#[test]
fn loops_and_user_functions() {
    let src = "def double(x: Num) -> Num:\n    return x + x\ndef render(window: Window, input: Input) -> Unit:\n    var i := 0\n    while i < 3:\n        Window.draw(window, double(i), i, 0)\n        i = i + 1\n";
    let mut b = start(src).unwrap();
    assert!(b.render(InputState(0)).is_ok());
    assert_eq!(
        b.environ.calls,
        vec!["draw 0 0 0".to_string(), "draw 2 1 0".to_string(), "draw 4 2 0".to_string()]
    );
}

#[test]
fn arrays_are_read_and_updated() {
    let src = "def render(window: Window, input: Input) -> Unit:\n    var a := [3]\n    a = Array.set(a, 1, 7)\n    Window.draw(window, Array.get(a, 1), Array.get(a, 0), 0)\n";
    let mut b = start(src).unwrap();
    assert!(b.render(InputState(0)).is_ok());
    assert_eq!(b.environ.calls, vec!["draw 7 0 0".to_string()]);
}

#[test]
fn char_code_and_tilemap() {
    let src = "def render(window: Window, input: Input) -> Unit:\n    Window.load_tilemap(window, \"tiles\")\n    Window.draw(window, String.char_code(\"AB\", 1), 0, 0)\n";
    let mut b = start(src).unwrap();
    assert!(b.render(InputState(0)).is_ok());
    assert_eq!(b.environ.calls, vec!["load tiles".to_string(), "draw 66 0 0".to_string()]);
}

#[test]
fn comparison_operators() {
    let src = "def render(window: Window, input: Input) -> Unit:\n    if 2 >= 2:\n        Window.draw(window, 1, 0, 0)\n    if 2 != 2:\n        Window.draw(window, 2, 0, 0)\n    if !false:\n        Window.draw(window, 3, 0, 0)\n";
    let mut b = start(src).unwrap();
    assert!(b.render(InputState(0)).is_ok());
    assert_eq!(b.environ.calls, vec!["draw 1 0 0".to_string(), "draw 3 0 0".to_string()]);
}

#[test]
fn missing_main_does_nothing() {
    let mut b = Backend::new(Compiler::new(), Recorder::default()).unwrap();
    assert!(b.scopes.is_none());
    assert!(b.render(InputState(0)).is_ok());
    assert!(b.environ.calls.is_empty());
}

#[test]
fn unparsable_main_does_nothing() {
    let mut b = start("let x = 1\n").unwrap();
    assert!(b.scopes.is_none());
    assert!(b.render(InputState(0)).is_ok());
}

#[test]
fn literal_overflow_stops_the_start() {
    assert!(matches!(start("let x := 99999999999999999999999\n"), Err(StartError::LiteralOverflow)));
}

#[test]
fn invalid_item_leaves_no_scopes() {
    let b = start("let x := y\n").unwrap();
    assert!(b.scopes.is_none());
}

#[test]
fn fault_in_item_is_reported() {
    let r = start("let x := 0x7fffffffffffffff + 1\n");
    assert!(matches!(r, Err(StartError::Fault(EvalError::Overflow))));
}

#[test]
fn builtins_are_bound_only_after_the_items_run() {
    let b = start("let x := Array.get([1], 0)\n").unwrap();
    assert!(b.scopes.is_none());
}

#[test]
fn render_faults_are_reported() {
    let src = "def render(window: Window, input: Input) -> Unit:\n    Array.set([2], 2, 0)\n";
    let mut b = start(src).unwrap();
    assert!(matches!(b.render(InputState(0)), Err(EvalError::ArraySetOutOfBounds(2, 2))));
    let src = "def render(window: Window, input: Input) -> Unit:\n    String.char_code(\"A\", 0 - 1)\n";
    let mut b = start(src).unwrap();
    assert!(matches!(b.render(InputState(0)), Err(EvalError::CharCodeIndex(-1))));
    let src = "def render(window: Window, input: Input) -> Unit:\n    String.char_code(\"A\", 1)\n";
    let mut b = start(src).unwrap();
    assert!(matches!(b.render(InputState(0)), Err(EvalError::CharCodeOutOfRange(1, 1))));
    let src = "let big := 0x7fffffffffffffff\ndef render(window: Window, input: Input) -> Unit:\n    Window.draw(window, big + 1, 0, 0)\n";
    let mut b = start(src).unwrap();
    assert!(matches!(b.render(InputState(0)), Err(EvalError::Overflow)));
    let src = "def render(window: Window, input: Input) -> Unit:\n    let f := render\n";
    let mut b = start(src).unwrap();
    assert!(matches!(b.render(InputState(0)), Err(EvalError::Undefined(_))));
    let src = "def render(window: Window, input: Input) -> Unit:\n    Window.draw(window, nothing, 0, 0)\n";
    let mut b = start(src).unwrap();
    assert!(matches!(b.render(InputState(0)), Err(EvalError::Invalid)));
}

#[test]
fn render_needs_window_and_input_parameters() {
    let src = "def render(window: Input, input: Window) -> Unit:\n    Window.draw(window, 1, 0, 0)\n";
    let mut b = start(src).unwrap();
    assert!(b.render(InputState(0)).is_ok());
    assert!(b.environ.calls.is_empty());
}

use tilescript::backend::Machine;
use tilescript::scope::Scope;
use tilescript::semantics::STEP_LIMIT;
use tilescript::syntax::{Expr, Num, Prim};
use tilescript::value::Value;

fn eval(expr: &Expr) -> Result<Value, EvalError> {
    let mut m = Machine::new(vec![Scope::new()]);
    let mut env = Recorder::default();
    Backend::<Recorder>::eval_expr(STEP_LIMIT, &mut env, &mut m, expr, InputState(0))
}

fn num(n: isize) -> Prim {
    Prim::Num(Num(n))
}

#[test]
fn arithmetic_operators_and_their_faults() {
    assert_eq!(eval(&Expr::Div(num(7), num(2))), Ok(Value::Num(Num(3))));
    assert_eq!(eval(&Expr::Mod(num(-7), num(2))), Ok(Value::Num(Num(-1))));
    assert_eq!(eval(&Expr::Div(num(1), num(0))), Err(EvalError::DivisionByZero));
    assert_eq!(eval(&Expr::Div(num(isize::MIN), num(-1))), Err(EvalError::Overflow));
    assert_eq!(eval(&Expr::BitShl(num(1), num(3))), Ok(Value::Num(Num(8))));
    assert_eq!(eval(&Expr::BitShl(num(1), num(200))), Err(EvalError::ShiftOverflow));
    assert_eq!(eval(&Expr::BitNot(num(5))), Ok(Value::Num(Num(-6))));
    assert_eq!(eval(&Expr::BitAnd(num(6), num(3))), Ok(Value::Num(Num(2))));
    assert_eq!(eval(&Expr::BitOrr(num(6), num(3))), Ok(Value::Num(Num(7))));
    assert_eq!(eval(&Expr::Mul(num(isize::MAX), num(2))), Err(EvalError::Overflow));
    assert_eq!(eval(&Expr::Sub(num(isize::MIN), num(1))), Err(EvalError::Overflow));
}

#[test]
fn array_get_out_of_bounds_is_a_fault() {
    let src = "def render(window: Window, input: Input) -> Unit:\n    Array.get([1], 5)\n";
    let mut b = start(src).unwrap();
    assert_eq!(b.render(InputState(0)), Err(EvalError::ArrayGetOutOfBounds(1, 5)));
}

#[test]
fn value_and_binding_conversions() {
    let v: Value = true.into();
    assert_eq!(v, Value::Bool(true));
    assert_eq!(bool::try_from(v), Ok(true));
    assert_eq!(Num::try_from(Value::Unit), Err(Value::Unit));
    let b: Binding = Intrinsic::Draw.into();
    assert_eq!(Intrinsic::try_from(b), Ok(Intrinsic::Draw));
}
