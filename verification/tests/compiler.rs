use tilescript::compiler::Compiler;
use tilescript::parser::ParseError;

#[test]
fn load_bind_drop() {
    let mut c = Compiler::new();
    assert_eq!(c.load_module("a", "let x := 1"), Some(()));
    assert_eq!(c.load_module("a", "let x := 2"), None);
    assert_eq!(c.source("a").map(|s| s.as_str()), Some("let x := 1"));
    assert_eq!(c.bind_module("a", "let x := 3"), Some(()));
    assert_eq!(c.source("a").map(|s| s.as_str()), Some("let x := 3"));
    assert_eq!(c.bind_module("b", "let y := 1"), None);
    assert!(!c.contains("b"));
    assert_eq!(c.drop_module("a"), Some(()));
    assert_eq!(c.drop_module("a"), None);
    assert!(!c.contains("a"));
    assert_eq!(c.load_module("a", "let x := 4"), Some(()));
    assert_eq!(c.source("a").map(|s| s.as_str()), Some("let x := 4"));
}

#[test]
fn try_build_parses_each_module() {
    let mut c = Compiler::new();
    c.load_module("good", "let x := 1 + 2");
    c.load_module("bad", "let x = 1");
    c.load_module("big", "let x := 0b11111111111111111111111111111111111111111111111111111111111111111");
    let built = c.try_build();
    assert_eq!(built.len(), 3);
    for (name, result) in built {
        match name.as_str() {
            "good" => assert_eq!(
                format!("{:?}", result.unwrap()),
                "Bind(false, Let(Name(\"x\"), None, Add(Num(Num(1)), Num(Num(2)))))"
            ),
            "bad" => assert_eq!(result.unwrap_err(), ParseError::Mismatch),
            "big" => assert_eq!(result.unwrap_err(), ParseError::Overflow),
            _ => panic!("unexpected module"),
        }
    }
}

#[test]
fn stores_compare_by_their_modules() {
    let mut a = Compiler::new();
    a.load_module("x", "1");
    a.load_module("y", "2");
    let mut b = Compiler::new();
    b.load_module("y", "2");
    b.load_module("x", "1");
    assert!(a == b);
    assert!(a.clone() == a);
    b.bind_module("y", "3");
    assert!(a != b);
    b.drop_module("y");
    assert!(a != b);
    assert!(Compiler::default() == Compiler::new());
}

#[test]
fn modules_lists_every_module_once() {
    let mut c = Compiler::new();
    c.load_module("a", "1");
    c.load_module("b", "2");
    c.drop_module("a");
    c.load_module("c", "3");
    let mut listed = c.modules();
    listed.sort();
    assert_eq!(listed, vec![("b".to_string(), "2".to_string()), ("c".to_string(), "3".to_string())]);
}
