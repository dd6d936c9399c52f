use tilescript::backend::{Backend, Environ, Requests};
use tilescript::compiler::Compiler;
use tilescript::parser::Parser;
use tilescript::value::InputState;

#[derive(Default)]
struct Log {
    calls: Vec<(u32, u32, u32)>,
}

impl Environ for Log {
    fn requests(&self) -> Requests {
        panic!("the request model exists for verification only")
    }

    fn action_one(&mut self, _value: u32) {}

    fn action_two(&mut self, _value: u32) {}

    fn draw_tile(&mut self, tile: u32, x: u32, y: u32) {
        self.calls.push((tile, x, y));
    }

    fn load_tile(&mut self, _tiles: &String) {}
}

fn source(c: &Compiler, name: &str) -> Option<String> {
    c.source(name).cloned()
}

#[test]
fn dropping_a_new_module_restores_the_store() {
    let mut c = Compiler::new();
    c.load_module("a", "x");
    let before = (source(&c, "a"), source(&c, "b"));
    assert_eq!(c.load_module("b", "y"), Some(()));
    assert_eq!(source(&c, "b"), Some("y".to_string()));
    assert_eq!(c.drop_module("b"), Some(()));
    assert_eq!((source(&c, "a"), source(&c, "b")), before);
}

#[test]
fn loading_after_dropping_installs_the_new_source() {
    let mut c = Compiler::new();
    c.load_module("a", "x");
    c.drop_module("a");
    assert_eq!(c.load_module("a", "z"), Some(()));
    assert_eq!(source(&c, "a"), Some("z".to_string()));
}

#[test]
fn failed_operations_change_nothing() {
    let mut c = Compiler::new();
    c.load_module("a", "x");
    assert_eq!(c.load_module("a", "other"), None);
    assert_eq!(c.bind_module("b", "other"), None);
    assert_eq!(c.drop_module("b"), None);
    assert_eq!(source(&c, "a"), Some("x".to_string()));
    assert!(!c.contains("b"));
}

#[test]
fn rebinding_replaces_only_its_module() {
    let mut c = Compiler::new();
    c.load_module("a", "x");
    c.load_module("b", "y");
    assert_eq!(c.bind_module("a", "w"), Some(()));
    assert_eq!(source(&c, "a"), Some("w".to_string()));
    assert_eq!(source(&c, "b"), Some("y".to_string()));
}

#[test]
fn operations_on_distinct_names_commute() {
    let mut c1 = Compiler::new();
    c1.load_module("a", "x");
    c1.load_module("b", "y");
    let mut c2 = Compiler::new();
    c2.load_module("b", "y");
    c2.load_module("a", "x");
    for n in ["a", "b", "c"] {
        assert_eq!(source(&c1, n), source(&c2, n));
    }
}

#[test]
fn successful_parses_consume_input() {
    let inputs = ["x", "f(1)", "(a + b)", "!done", "\"s\"", "[2]", "0b1"];
    for text in inputs {
        let s: Vec<char> = text.chars().collect();
        let (end, _) = Parser::expr(&s, 0).unwrap();
        assert!(0 < end && end <= s.len());
    }
}

#[test]
fn a_prepared_program_has_one_scope_and_frames_keep_it() {
    let mut c = Compiler::new();
    c.load_module(
        "main",
        "var n := 0\ndef render(window: Window, input: Input) -> Unit:\n    n = n + 1\n    Window.draw(window, n, 0, 0)\n",
    );
    let mut b = Backend::new(c, Log::default()).unwrap();
    assert_eq!(b.scopes.as_ref().unwrap().len(), 1);
    b.render(InputState(0)).unwrap();
    let first = b.environ.calls.clone();
    b.render(InputState(0)).unwrap();
    assert_eq!(b.scopes.as_ref().unwrap().len(), 1);
    assert_eq!(&b.environ.calls[..first.len()], &first[..]);
    assert_eq!(b.environ.calls, vec![(1, 0, 0), (2, 0, 0)]);
}

#[test]
fn the_step_limit_does_not_stop_ordinary_runs() {
    let mut c = Compiler::new();
    c.load_module(
        "main",
        "def render(window: Window, input: Input) -> Unit:\n    var i := 0\n    var s := 0\n    while i < 1000:\n        s = s + i\n        i = i + 1\n    Window.draw(window, s, i, 0)\n",
    );
    let mut b = Backend::new(c, Log::default()).unwrap();
    b.render(InputState(0)).unwrap();
    assert_eq!(b.environ.calls, vec![(499500, 1000, 0)]);
}
