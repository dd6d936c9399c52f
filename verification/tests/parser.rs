use tilescript::parser::{parse_file_text, parse_item_text, ParseError, Parser};

fn chars(s: &str) -> Vec<char> {
    s.chars().collect()
}

#[test]
fn num_decimal_and_prefixes() {
    let s = chars("42");
    let (j, n) = Parser::num(&s, 0).unwrap();
    assert_eq!((j, n.0), (2, 42));
    let s = chars("0b101");
    let (j, n) = Parser::num(&s, 0).unwrap();
    assert_eq!((j, n.0), (5, 5));
    let s = chars("0o17");
    let (j, n) = Parser::num(&s, 0).unwrap();
    assert_eq!((j, n.0), (4, 15));
    let s = chars("0x1fA");
    let (j, n) = Parser::num(&s, 0).unwrap();
    assert_eq!((j, n.0), (5, 0x1fa));
}

#[test]
fn num_hex_digits_stop_before_eight() {
    let s = chars("0x19");
    let (j, n) = Parser::num(&s, 0).unwrap();
    assert_eq!((j, n.0), (3, 1));
    let s = chars("0x9");
    let (j, n) = Parser::num(&s, 0).unwrap();
    assert_eq!((j, n.0), (1, 0));
}

#[test]
fn num_overflow_is_reported() {
    let s = chars("99999999999999999999999");
    assert_eq!(Parser::num(&s, 0).unwrap_err(), ParseError::Overflow);
    let s = chars("abc");
    assert_eq!(Parser::num(&s, 0).unwrap_err(), ParseError::Mismatch);
}

#[test]
fn file_with_function() {
    let src = "let x := 1\ndef f(a: Num) -> Num:\n    return a + 1\n";
    let file = parse_file_text(src).unwrap();
    assert_eq!(file.0.len(), 2);
}

#[test]
fn item_must_take_whole_input() {
    assert!(parse_item_text("let x := 1").is_ok());
    assert_eq!(parse_item_text("let x := 1 junk").unwrap_err(), ParseError::Mismatch);
}

use tilescript::syntax::{Arr, Assn, Bind, Body, Call, Cond, Expr, Func, Item, Loop, Name, Num, Order, Path, Prim, Stmt, Str};

fn name(s: &str) -> Name {
    Name(s.to_string())
}

fn path(parts: &[&str]) -> Path {
    Path(parts.iter().map(|p| name(p)).collect())
}

#[test]
fn space_is_blank_or_tab() {
    assert!(Parser::space(' '));
    assert!(Parser::space('\t'));
    assert!(!Parser::space('\n'));
    assert!(!Parser::space('x'));
}

#[test]
fn string_and_array_literals() {
    let s = chars("\"a b\" rest");
    let (j, t) = Parser::str(&s, 0).unwrap();
    assert_eq!((j, t), (5, Str("a b".to_string())));
    assert_eq!(Parser::str(&chars("\"\""), 0).unwrap_err(), ParseError::Mismatch);
    let s = chars("[ 0x10 ]");
    assert_eq!(Parser::arr(&s, 0).unwrap(), (8, Arr(16)));
}

#[test]
fn names_and_paths() {
    let s = chars("_a1.b_2.3");
    assert_eq!(Parser::name(&s, 0).unwrap(), (3, name("_a1")));
    assert_eq!(Parser::path(&s, 0).unwrap(), (7, path(&["_a1", "b_2"])));
    let s = chars("caf\u{e9}9 x");
    assert_eq!(Parser::name(&s, 0).unwrap(), (5, name("caf\u{e9}9")));
    assert_eq!(Parser::name(&chars("1abc"), 0).unwrap_err(), ParseError::Mismatch);
}

#[test]
fn keywords_match_as_prefixes() {
    let s = chars("trueish");
    assert_eq!(Parser::prim(&s, 0).unwrap(), (4, Prim::Bool(true)));
}

#[test]
fn calls_and_argument_lists() {
    let s = chars("f(1, x)");
    let (j, c) = Parser::call(&s, 0).unwrap();
    assert_eq!(j, 7);
    assert_eq!(
        c,
        Call(
            path(&["f"]),
            vec![Expr::Prim(Prim::Num(Num(1))), Expr::Prim(Prim::Path(path(&["x"])))]
        )
    );
    assert_eq!(Parser::call(&chars("f()"), 0).unwrap(), (3, Call(path(&["f"]), vec![])));
    // Blanks alone between the parentheses are no argument list.
    assert_eq!(Parser::call(&chars("f( )"), 0).unwrap_err(), ParseError::Mismatch);
    assert_eq!(Parser::prim(&chars("f( )"), 0).unwrap(), (1, Prim::Path(path(&["f"]))));
}

#[test]
fn operators_build_expressions() {
    let s = chars("a >= 2");
    assert_eq!(
        Parser::expr(&s, 0).unwrap(),
        (6, Expr::Ord(true, Order::Less, Prim::Path(path(&["a"])), Prim::Num(Num(2))))
    );
    let s = chars("1 && (2)");
    assert_eq!(
        Parser::expr(&s, 0).unwrap(),
        (8, Expr::And(Prim::Num(Num(1)), Prim::Sect(Box::new(Expr::Prim(Prim::Num(Num(2)))))))
    );
    let s = chars("!x");
    assert_eq!(Parser::expr(&s, 0).unwrap(), (2, Expr::Comp(Prim::Path(path(&["x"])))));
    // An operator without a right operand leaves the lone primary.
    let s = chars("1 + )");
    assert_eq!(Parser::expr(&s, 0).unwrap(), (1, Expr::Prim(Prim::Num(Num(1)))));
}

#[test]
fn bindings_and_assignments() {
    let s = chars("let x: Num = 5");
    assert_eq!(
        Parser::bind(&s, 0).unwrap(),
        (14, Bind::Let(name("x"), Some(path(&["Num"])), Expr::Prim(Prim::Num(Num(5)))))
    );
    let s = chars("var y := 1");
    assert_eq!(Parser::bind(&s, 0).unwrap(), (10, Bind::Var(name("y"), None, Expr::Prim(Prim::Num(Num(1))))));
    assert_eq!(Parser::bind(&chars("letx := 1"), 0).unwrap_err(), ParseError::Mismatch);
    let s = chars("y = y + 1");
    assert_eq!(
        Parser::assn(&s, 0).unwrap(),
        (9, Assn(name("y"), Expr::Add(Prim::Path(path(&["y"])), Prim::Num(Num(1)))))
    );
}

#[test]
fn statements_and_bodies() {
    assert_eq!(Parser(0).stmt(&chars("return"), 0).unwrap(), (6, Stmt::Ret(None)));
    let src = chars("if x:\n  a = 1\n\n  b = 2\n c = 3");
    let (j, cond) = Parser(0).cond(&src, 0).unwrap();
    assert_eq!(j, 22);
    assert_eq!(
        cond,
        Cond(
            Expr::Prim(Prim::Path(path(&["x"]))),
            Body(vec![
                Stmt::Assn(Assn(name("a"), Expr::Prim(Prim::Num(Num(1))))),
                Stmt::Assn(Assn(name("b"), Expr::Prim(Prim::Num(Num(2))))),
            ])
        )
    );
    // The body must be indented deeper than its block.
    assert_eq!(Parser(2).cond(&src, 0).unwrap_err(), ParseError::Mismatch);
    let src = chars("while go:\r\n\treturn 1");
    let (j, fold) = Parser(0).fold(&src, 0).unwrap();
    assert_eq!(j, 20);
    assert_eq!(
        fold,
        Loop(Expr::Prim(Prim::Path(path(&["go"]))), Body(vec![Stmt::Ret(Some(Expr::Prim(Prim::Num(Num(1)))))]))
    );
}

#[test]
fn function_definitions_and_items() {
    let src = chars("def add(a: Num, b: Num) -> Num:\n    return a + b");
    let (j, f) = Parser(0).func(&src, 0).unwrap();
    assert_eq!(j, src.len());
    assert_eq!(
        f,
        Func(
            name("add"),
            path(&["Num"]),
            vec![(name("a"), path(&["Num"])), (name("b"), path(&["Num"]))],
            Body(vec![Stmt::Ret(Some(Expr::Add(Prim::Path(path(&["a"])), Prim::Path(path(&["b"])))))])
        )
    );
    let src = chars("local let z := 0");
    assert_eq!(
        Parser::item(&src, 0).unwrap(),
        (16, Item::Bind(true, Bind::Let(name("z"), None, Expr::Prim(Prim::Num(Num(0))))))
    );
}

#[test]
fn files_are_consumed_entirely() {
    let file = Parser::file(&chars("\nlet a := 1\n  \nlet b := 2\n")).unwrap();
    assert_eq!(file.0.len(), 2);
    assert_eq!(Parser::file(&chars("let a := 1 ?")).unwrap_err(), ParseError::Mismatch);
    assert_eq!(Parser::file(&chars("let a := 0o99999999999999999999999")).unwrap_err(), ParseError::Mismatch);
    assert_eq!(Parser::file(&chars("let a := 0o7777777777777777777777777")).unwrap_err(), ParseError::Overflow);
}

#[test]
fn parsed_nodes_clone_to_equal_nodes() {
    let file = parse_file_text("def f(a: Num) -> Num:\n    if a > 1:\n        return a * 2\n    return (a)\n").unwrap();
    assert_eq!(file.clone(), file);
    let e = Parser::expr(&chars("g(1, \"s\", [2])"), 0).unwrap().1;
    assert_eq!(e.clone(), e);
}

#[test]
fn identifiers_stop_at_ascii_punctuation() {
    assert_eq!(Parser::name(&chars("x y"), 0).unwrap(), (1, name("x")));
    assert_eq!(Parser::name(&chars("ab(c"), 0).unwrap(), (2, name("ab")));
    assert_eq!(Parser::name(&chars("a_1:b"), 0).unwrap(), (3, name("a_1")));
}

#[test]
fn conversions_to_and_from_variants() {
    let p: Prim = Num(3).into();
    assert_eq!(p, Prim::Num(Num(3)));
    assert_eq!(Num::try_from(p), Ok(Num(3)));
    assert_eq!(bool::try_from(Prim::Num(Num(3))), Err(Prim::Num(Num(3))));
    let s: Stmt = Stmt::from(Assn(name("a"), Expr::Prim(Prim::Bool(true))));
    assert_eq!(Assn::try_from(s.clone()), Ok(Assn(name("a"), Expr::Prim(Prim::Bool(true)))));
    assert!(Call::try_from(s).is_err());
}
