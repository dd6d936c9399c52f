//! The abstract syntax of the language, and its mathematical model.
//!
//! Every syntax node is viewed (`@`) as a value of a model type in which
//! names are character sequences and node lists are sequences.
use vstd::prelude::*;

verus! {

/// A numeric literal.
#[derive(Debug, PartialEq, Eq, Hash, PartialOrd, Ord)]
pub struct Num(pub isize);

/// A string literal (the characters between the quotes).
#[derive(Debug, PartialEq, Eq, Hash, PartialOrd, Ord)]
pub struct Str(pub String);

/// An array literal `[n]`: an array of `n` zeroes.
#[derive(Debug, PartialEq, Eq, Hash, PartialOrd, Ord)]
pub struct Arr(pub usize);

/// An identifier.
#[derive(Debug, PartialEq, Eq, Hash, PartialOrd, Ord)]
pub struct Name(pub String);

/// A dotted path of identifiers, such as `Window.draw`.
#[derive(Debug, PartialEq, Eq, Hash, PartialOrd, Ord)]
pub struct Path(pub Vec<Name>);

/// A call of the function at a path with argument expressions.
#[derive(Debug, PartialEq, Eq, Hash, PartialOrd, Ord)]
pub struct Call(pub Path, pub Vec<Expr>);

/// A source file: its top-level items in order.
#[derive(Debug, PartialEq, Eq, Hash, PartialOrd, Ord)]
pub struct File(pub Vec<Item>);

/// An assignment `name = expr` to an existing binding.
#[derive(Debug, PartialEq, Eq, Hash, PartialOrd, Ord)]
pub struct Assn(pub Name, pub Expr);

/// A binding introduction, immutable (`let`) or mutable (`var`), with an
/// optional type annotation.
#[derive(Debug, PartialEq, Eq, Hash, PartialOrd, Ord)]
pub enum Bind {
    Let(Name, Option<Path>, Expr),
    Var(Name, Option<Path>, Expr),
}

/// A top-level item; the flag records the `local` visibility marker.
#[derive(Debug, PartialEq, Eq, Hash, PartialOrd, Ord)]
pub enum Item {
    Bind(bool, Bind),
    Func(bool, Func),
}

/// A primary expression.
#[derive(Debug, PartialEq, Eq, Hash, PartialOrd, Ord)]
pub enum Prim {
    Arr(Arr),
    Num(Num),
    Str(Str),
    Bool(bool),
    Path(Path),
    Call(Call),
    Sect(Box<Expr>),
}

/// The relation that a comparison tests.
#[derive(Debug, Clone, Copy, PartialEq, Eq, Structural, Hash, PartialOrd, Ord)]
pub enum Order {
    Less,
    Equal,
    Greater,
}

/// An expression: a primary, or an operator applied to primaries.
///
/// `Ord(negate, order, lhs, rhs)` tests whether `lhs` stands in `order` to
/// `rhs`, negated when `negate` is set.
#[derive(Debug, PartialEq, Eq, Hash, PartialOrd, Ord)]
pub enum Expr {
    Prim(Prim),
    Comp(Prim),
    And(Prim, Prim),
    Orr(Prim, Prim),
    Add(Prim, Prim),
    Sub(Prim, Prim),
    Mul(Prim, Prim),
    Div(Prim, Prim),
    Mod(Prim, Prim),
    BitNot(Prim),
    BitShl(Prim, Prim),
    BitAnd(Prim, Prim),
    BitOrr(Prim, Prim),
    Ord(bool, Order, Prim, Prim),
}

/// A conditional statement: `if expr:` followed by an indented body.
#[derive(Debug, PartialEq, Eq, Hash, PartialOrd, Ord)]
pub struct Cond(pub Expr, pub Body);

/// A loop statement: `while expr:` followed by an indented body.
#[derive(Debug, PartialEq, Eq, Hash, PartialOrd, Ord)]
pub struct Loop(pub Expr, pub Body);

/// A block of statements.
#[derive(Debug, PartialEq, Eq, Hash, PartialOrd, Ord)]
pub struct Body(pub Vec<Stmt>);

/// A function definition: name, result annotation, parameters with their
/// annotations, and body.
#[derive(Debug, PartialEq, Eq, Hash, PartialOrd, Ord)]
pub struct Func(pub Name, pub Path, pub Vec<(Name, Path)>, pub Body);

/// A statement.
#[derive(Debug, PartialEq, Eq, Hash, PartialOrd, Ord)]
pub enum Stmt {
    Bind(Bind),
    Assn(Assn),
    Func(Func),
    Call(Call),
    Cond(Cond),
    Loop(Loop),
    Ret(Option<Expr>),
}

// ---------------------------------------------------------------------
// The model.

/// A path in the model: the sequence of its identifiers.
pub type SpecPath = Seq<Seq<char>>;

/// A call in the model.
pub struct SpecCall {
    pub path: SpecPath,
    pub args: Seq<SpecExpr>,
}

/// A primary expression in the model.
pub enum SpecPrim {
    Arr(usize),
    Num(isize),
    Str(Seq<char>),
    Bool(bool),
    Path(SpecPath),
    Call(SpecCall),
    Sect(Box<SpecExpr>),
}

/// An expression in the model.
pub enum SpecExpr {
    Prim(SpecPrim),
    Comp(SpecPrim),
    And(SpecPrim, SpecPrim),
    Orr(SpecPrim, SpecPrim),
    Add(SpecPrim, SpecPrim),
    Sub(SpecPrim, SpecPrim),
    Mul(SpecPrim, SpecPrim),
    Div(SpecPrim, SpecPrim),
    Mod(SpecPrim, SpecPrim),
    BitNot(SpecPrim),
    BitShl(SpecPrim, SpecPrim),
    BitAnd(SpecPrim, SpecPrim),
    BitOrr(SpecPrim, SpecPrim),
    Ord(bool, Order, SpecPrim, SpecPrim),
}

/// A binding introduction in the model; the flag is set for `var`.
pub struct SpecBind {
    pub mutable: bool,
    pub name: Seq<char>,
    pub anno: Option<SpecPath>,
    pub expr: SpecExpr,
}

/// A function definition in the model.
pub struct SpecFunc {
    pub name: Seq<char>,
    pub ret: SpecPath,
    pub params: Seq<(Seq<char>, SpecPath)>,
    pub body: Seq<SpecStmt>,
}

/// A statement in the model; bodies are statement sequences.
pub enum SpecStmt {
    Bind(SpecBind),
    Assn(Seq<char>, SpecExpr),
    Func(SpecFunc),
    Call(SpecCall),
    Cond(SpecExpr, Seq<SpecStmt>),
    Loop(SpecExpr, Seq<SpecStmt>),
    Ret(Option<SpecExpr>),
}

/// A top-level item in the model; the flag records `local`.
pub enum SpecItem {
    Bind(bool, SpecBind),
    Func(bool, SpecFunc),
}

pub open spec fn path_view(p: Path) -> SpecPath {
    Seq::new(p.0@.len(), |i: int| p.0@[i].0@)
}

pub open spec fn params_view(ps: Seq<(Name, Path)>) -> Seq<(Seq<char>, SpecPath)> {
    Seq::new(ps.len(), |i: int| (ps[i].0.0@, path_view(ps[i].1)))
}

pub open spec fn prim_view(p: Prim) -> SpecPrim
    decreases p,
{
    match p {
        Prim::Arr(a) => SpecPrim::Arr(a.0),
        Prim::Num(n) => SpecPrim::Num(n.0),
        Prim::Str(s) => SpecPrim::Str(s.0@),
        Prim::Bool(b) => SpecPrim::Bool(b),
        Prim::Path(pa) => SpecPrim::Path(path_view(pa)),
        Prim::Call(c) => SpecPrim::Call(call_view(c)),
        Prim::Sect(e) => SpecPrim::Sect(Box::new(expr_view(*e))),
    }
}

pub open spec fn call_view(c: Call) -> SpecCall
    decreases c,
{
    SpecCall { path: path_view(c.0), args: exprs_view(c.1@) }
}

/// The views of a list of expressions.
pub open spec fn exprs_view(v: Seq<Expr>) -> Seq<SpecExpr>
    decreases v,
{
    Seq::new(
        v.len(),
        |i: int|
            if 0 <= i < v.len() {
                expr_view(v[i])
            } else {
                SpecExpr::Prim(SpecPrim::Bool(false))
            },
    )
}

pub open spec fn expr_view(e: Expr) -> SpecExpr
    decreases e,
{
    match e {
        Expr::Prim(p) => SpecExpr::Prim(prim_view(p)),
        Expr::Comp(p) => SpecExpr::Comp(prim_view(p)),
        Expr::And(l, r) => SpecExpr::And(prim_view(l), prim_view(r)),
        Expr::Orr(l, r) => SpecExpr::Orr(prim_view(l), prim_view(r)),
        Expr::Add(l, r) => SpecExpr::Add(prim_view(l), prim_view(r)),
        Expr::Sub(l, r) => SpecExpr::Sub(prim_view(l), prim_view(r)),
        Expr::Mul(l, r) => SpecExpr::Mul(prim_view(l), prim_view(r)),
        Expr::Div(l, r) => SpecExpr::Div(prim_view(l), prim_view(r)),
        Expr::Mod(l, r) => SpecExpr::Mod(prim_view(l), prim_view(r)),
        Expr::BitNot(p) => SpecExpr::BitNot(prim_view(p)),
        Expr::BitShl(l, r) => SpecExpr::BitShl(prim_view(l), prim_view(r)),
        Expr::BitAnd(l, r) => SpecExpr::BitAnd(prim_view(l), prim_view(r)),
        Expr::BitOrr(l, r) => SpecExpr::BitOrr(prim_view(l), prim_view(r)),
        Expr::Ord(n, o, l, r) => SpecExpr::Ord(n, o, prim_view(l), prim_view(r)),
    }
}

pub open spec fn bind_view(b: Bind) -> SpecBind {
    match b {
        Bind::Let(n, a, e) => SpecBind {
            mutable: false,
            name: n.0@,
            anno: match a { Some(p) => Some(path_view(p)), None => None },
            expr: expr_view(e),
        },
        Bind::Var(n, a, e) => SpecBind {
            mutable: true,
            name: n.0@,
            anno: match a { Some(p) => Some(path_view(p)), None => None },
            expr: expr_view(e),
        },
    }
}

pub open spec fn func_view(f: Func) -> SpecFunc
    decreases f,
{
    SpecFunc {
        name: f.0.0@,
        ret: path_view(f.1),
        params: params_view(f.2@),
        body: body_view(f.3),
    }
}

pub open spec fn body_view(b: Body) -> Seq<SpecStmt>
    decreases b,
{
    stmts_view(b.0@)
}

/// The views of a list of statements.
pub open spec fn stmts_view(v: Seq<Stmt>) -> Seq<SpecStmt>
    decreases v,
{
    Seq::new(
        v.len(),
        |i: int|
            if 0 <= i < v.len() {
                stmt_view(v[i])
            } else {
                SpecStmt::Ret(None)
            },
    )
}

pub open spec fn stmt_view(s: Stmt) -> SpecStmt
    decreases s,
{
    match s {
        Stmt::Bind(b) => SpecStmt::Bind(bind_view(b)),
        Stmt::Assn(a) => SpecStmt::Assn(a.0.0@, expr_view(a.1)),
        Stmt::Func(f) => SpecStmt::Func(func_view(f)),
        Stmt::Call(c) => SpecStmt::Call(call_view(c)),
        Stmt::Cond(c) => SpecStmt::Cond(expr_view(c.0), body_view(c.1)),
        Stmt::Loop(l) => SpecStmt::Loop(expr_view(l.0), body_view(l.1)),
        Stmt::Ret(e) => SpecStmt::Ret(
            match e {
                Some(e) => Some(expr_view(e)),
                None => None,
            },
        ),
    }
}

pub open spec fn item_view(it: Item) -> SpecItem {
    match it {
        Item::Bind(l, b) => SpecItem::Bind(l, bind_view(b)),
        Item::Func(l, f) => SpecItem::Func(l, func_view(f)),
    }
}

impl View for Num {
    type V = int;

    open spec fn view(&self) -> int {
        self.0 as int
    }
}

impl View for Str {
    type V = Seq<char>;

    open spec fn view(&self) -> Seq<char> {
        self.0@
    }
}

impl View for Arr {
    type V = int;

    open spec fn view(&self) -> int {
        self.0 as int
    }
}

impl View for Assn {
    type V = (Seq<char>, SpecExpr);

    open spec fn view(&self) -> (Seq<char>, SpecExpr) {
        (self.0@, self.1@)
    }
}

impl View for Cond {
    type V = (SpecExpr, Seq<SpecStmt>);

    open spec fn view(&self) -> (SpecExpr, Seq<SpecStmt>) {
        (self.0@, self.1@)
    }
}

impl View for Loop {
    type V = (SpecExpr, Seq<SpecStmt>);

    open spec fn view(&self) -> (SpecExpr, Seq<SpecStmt>) {
        (self.0@, self.1@)
    }
}

impl View for Name {
    type V = Seq<char>;

    open spec fn view(&self) -> Seq<char> {
        self.0@
    }
}

impl View for Path {
    type V = SpecPath;

    open spec fn view(&self) -> SpecPath {
        path_view(*self)
    }
}

impl View for Prim {
    type V = SpecPrim;

    open spec fn view(&self) -> SpecPrim {
        prim_view(*self)
    }
}

impl View for Call {
    type V = SpecCall;

    open spec fn view(&self) -> SpecCall {
        call_view(*self)
    }
}

impl View for Expr {
    type V = SpecExpr;

    open spec fn view(&self) -> SpecExpr {
        expr_view(*self)
    }
}

impl View for Bind {
    type V = SpecBind;

    open spec fn view(&self) -> SpecBind {
        bind_view(*self)
    }
}

impl View for Func {
    type V = SpecFunc;

    open spec fn view(&self) -> SpecFunc {
        func_view(*self)
    }
}

impl View for Body {
    type V = Seq<SpecStmt>;

    open spec fn view(&self) -> Seq<SpecStmt> {
        body_view(*self)
    }
}

impl View for Stmt {
    type V = SpecStmt;

    open spec fn view(&self) -> SpecStmt {
        stmt_view(*self)
    }
}

impl View for Item {
    type V = SpecItem;

    open spec fn view(&self) -> SpecItem {
        item_view(*self)
    }
}

impl View for File {
    type V = Seq<SpecItem>;

    open spec fn view(&self) -> Seq<SpecItem> {
        Seq::new(self.0@.len(), |i: int| item_view(self.0@[i]))
    }
}

impl Path {
    /// Whether two paths name the same identifiers.
    pub fn same(&self, other: &Path) -> (r: bool)
        ensures
            r == (self@ == other@),
    {
        if self.0.len() != other.0.len() {
            proof {
                assert(self@.len() != other@.len());
            }
            return false;
        }
        let mut i: usize = 0;
        while i < self.0.len()
            invariant
                self.0@.len() == other.0@.len(),
                i <= self.0@.len(),
                forall|j: int| 0 <= j < i ==> #[trigger] self@[j] == other@[j],
            decreases self.0@.len() - i,
        {
            if self.0[i].0 != other.0[i].0 {
                proof {
                    assert(self@[i as int] != other@[i as int]);
                }
                return false;
            }
            i = i + 1;
        }
        assert(self@ =~= other@);
        true
    }

    /// The path of the single identifier `name`.
    pub fn single(name: Name) -> (p: Path)
        ensures
            p@ == seq![name@],
    {
        let mut v: Vec<Name> = Vec::new();
        v.push(name);
        let p = Path(v);
        assert(p@ =~= seq![name@]);
        p
    }
}

// ---------------------------------------------------------------------
// Copies that keep the view.

impl Name {
    /// A copy of this identifier.
    pub fn copy(&self) -> (res: Name)
        ensures
            res@ == self@,
    {
        Name(self.0.clone())
    }
}

impl Path {
    /// A copy of this path.
    pub fn copy(&self) -> (res: Path)
        ensures
            res@ == self@,
    {
        let mut names: Vec<Name> = Vec::new();
        let mut i: usize = 0;
        while i < self.0.len()
            invariant
                i <= self.0@.len(),
                names@.len() == i,
                forall|j: int| 0 <= j < i ==> #[trigger] names@[j]@ == self.0@[j]@,
            decreases self.0@.len() - i,
        {
            names.push(self.0[i].copy());
            i = i + 1;
        }
        let res = Path(names);
        assert forall|j: int| 0 <= j < res@.len() implies res@[j] == self@[j] by {
            assert(names@[j]@ == self.0@[j]@);
        }
        assert(res@ =~= self@);
        res
    }
}

pub fn copy_prim(p: &Prim) -> (res: Prim)
    ensures
        res@ == p@,
    decreases p,
{
    match p {
        Prim::Arr(a) => Prim::Arr(Arr(a.0)),
        Prim::Num(n) => Prim::Num(Num(n.0)),
        Prim::Str(s) => Prim::Str(Str(s.0.clone())),
        Prim::Bool(b) => Prim::Bool(*b),
        Prim::Path(pa) => Prim::Path(pa.copy()),
        Prim::Call(c) => Prim::Call(copy_call(c)),
        Prim::Sect(e) => Prim::Sect(Box::new(copy_expr(e))),
    }
}

pub fn copy_call(c: &Call) -> (res: Call)
    ensures
        res@ == c@,
    decreases c,
{
    let mut args: Vec<Expr> = Vec::new();
    let mut i: usize = 0;
    while i < c.1.len()
        invariant
            i <= c.1@.len(),
            args@.len() == i,
            forall|j: int| 0 <= j < i ==> #[trigger] args@[j]@ == c.1@[j]@,
        decreases c.1@.len() - i,
    {
        assert(decreases_to!(c => c.1@[i as int]));
        args.push(copy_expr(&c.1[i]));
        i = i + 1;
    }
    let res = Call(c.0.copy(), args);
    assert forall|j: int| 0 <= j < res@.args.len() implies res@.args[j] == c@.args[j] by {
        assert(args@[j]@ == c.1@[j]@);
    }
    assert(res@.args =~= c@.args);
    res
}

pub fn copy_expr(e: &Expr) -> (res: Expr)
    ensures
        res@ == e@,
    decreases e,
{
    match e {
        Expr::Prim(p) => Expr::Prim(copy_prim(p)),
        Expr::Comp(p) => Expr::Comp(copy_prim(p)),
        Expr::And(l, r) => Expr::And(copy_prim(l), copy_prim(r)),
        Expr::Orr(l, r) => Expr::Orr(copy_prim(l), copy_prim(r)),
        Expr::Add(l, r) => Expr::Add(copy_prim(l), copy_prim(r)),
        Expr::Sub(l, r) => Expr::Sub(copy_prim(l), copy_prim(r)),
        Expr::Mul(l, r) => Expr::Mul(copy_prim(l), copy_prim(r)),
        Expr::Div(l, r) => Expr::Div(copy_prim(l), copy_prim(r)),
        Expr::Mod(l, r) => Expr::Mod(copy_prim(l), copy_prim(r)),
        Expr::BitNot(p) => Expr::BitNot(copy_prim(p)),
        Expr::BitShl(l, r) => Expr::BitShl(copy_prim(l), copy_prim(r)),
        Expr::BitAnd(l, r) => Expr::BitAnd(copy_prim(l), copy_prim(r)),
        Expr::BitOrr(l, r) => Expr::BitOrr(copy_prim(l), copy_prim(r)),
        Expr::Ord(n, o, l, r) => Expr::Ord(*n, *o, copy_prim(l), copy_prim(r)),
    }
}

fn copy_anno(a: &Option<Path>) -> (res: Option<Path>)
    ensures
        match (res, *a) {
            (Some(r), Some(x)) => r@ == x@,
            (None, None) => true,
            _ => false,
        },
{
    match a {
        Some(p) => Some(p.copy()),
        None => None,
    }
}

pub fn copy_bind(b: &Bind) -> (res: Bind)
    ensures
        res@ == b@,
{
    match b {
        Bind::Let(n, a, e) => Bind::Let(n.copy(), copy_anno(a), copy_expr(e)),
        Bind::Var(n, a, e) => Bind::Var(n.copy(), copy_anno(a), copy_expr(e)),
    }
}

pub fn copy_func(f: &Func) -> (res: Func)
    ensures
        res@ == f@,
    decreases f,
{
    let mut params: Vec<(Name, Path)> = Vec::new();
    let mut i: usize = 0;
    while i < f.2.len()
        invariant
            i <= f.2@.len(),
            params@.len() == i,
            forall|j: int| 0 <= j < i ==> (#[trigger] params@[j]).0@ == f.2@[j].0@ && params@[j].1@ == f.2@[j].1@,
        decreases f.2@.len() - i,
    {
        params.push((f.2[i].0.copy(), f.2[i].1.copy()));
        i = i + 1;
    }
    let body = copy_body(&f.3);
    let res = Func(f.0.copy(), f.1.copy(), params, body);
    assert forall|j: int| 0 <= j < res@.params.len() implies res@.params[j] == f@.params[j] by {
        assert(params@[j].0@ == f.2@[j].0@ && params@[j].1@ == f.2@[j].1@);
    }
    assert(res@.params =~= f@.params);
    res
}

pub fn copy_body(b: &Body) -> (res: Body)
    ensures
        res@ == b@,
    decreases b,
{
    let mut stmts: Vec<Stmt> = Vec::new();
    let mut i: usize = 0;
    while i < b.0.len()
        invariant
            i <= b.0@.len(),
            stmts@.len() == i,
            forall|j: int| 0 <= j < i ==> #[trigger] stmts@[j]@ == b.0@[j]@,
        decreases b.0@.len() - i,
    {
        assert(decreases_to!(b => b.0@[i as int]));
        stmts.push(copy_stmt(&b.0[i]));
        i = i + 1;
    }
    let res = Body(stmts);
    assert forall|j: int| 0 <= j < res@.len() implies res@[j] == b@[j] by {
        assert(stmts@[j]@ == b.0@[j]@);
    }
    assert(res@ =~= b@);
    res
}

pub fn copy_stmt(s: &Stmt) -> (res: Stmt)
    ensures
        res@ == s@,
    decreases s,
{
    match s {
        Stmt::Bind(b) => Stmt::Bind(copy_bind(b)),
        Stmt::Assn(a) => Stmt::Assn(Assn(a.0.copy(), copy_expr(&a.1))),
        Stmt::Func(f) => Stmt::Func(copy_func(f)),
        Stmt::Call(c) => Stmt::Call(copy_call(c)),
        Stmt::Cond(c) => Stmt::Cond(Cond(copy_expr(&c.0), copy_body(&c.1))),
        Stmt::Loop(l) => Stmt::Loop(Loop(copy_expr(&l.0), copy_body(&l.1))),
        Stmt::Ret(e) => match e {
            Some(e) => Stmt::Ret(Some(copy_expr(e))),
            None => Stmt::Ret(None),
        },
    }
}


// ---------------------------------------------------------------------
// Clones, by the copies above.

impl Clone for Prim {
    fn clone(&self) -> (res: Self)
        ensures
            res@ == self@,
    {
        copy_prim(self)
    }
}

impl Clone for Expr {
    fn clone(&self) -> (res: Self)
        ensures
            res@ == self@,
    {
        copy_expr(self)
    }
}

impl Clone for Call {
    fn clone(&self) -> (res: Self)
        ensures
            res@ == self@,
    {
        copy_call(self)
    }
}

impl Clone for Bind {
    fn clone(&self) -> (res: Self)
        ensures
            res@ == self@,
    {
        copy_bind(self)
    }
}

impl Clone for Func {
    fn clone(&self) -> (res: Self)
        ensures
            res@ == self@,
    {
        copy_func(self)
    }
}

impl Clone for Body {
    fn clone(&self) -> (res: Self)
        ensures
            res@ == self@,
    {
        copy_body(self)
    }
}

impl Clone for Stmt {
    fn clone(&self) -> (res: Self)
        ensures
            res@ == self@,
    {
        copy_stmt(self)
    }
}

impl Clone for Assn {
    fn clone(&self) -> (res: Self)
        ensures
            res@ == self@,
    {
        Assn(self.0.copy(), copy_expr(&self.1))
    }
}

impl Clone for Cond {
    fn clone(&self) -> (res: Self)
        ensures
            res@ == self@,
    {
        Cond(copy_expr(&self.0), copy_body(&self.1))
    }
}

impl Clone for Loop {
    fn clone(&self) -> (res: Self)
        ensures
            res@ == self@,
    {
        Loop(copy_expr(&self.0), copy_body(&self.1))
    }
}

impl Clone for Item {
    fn clone(&self) -> (res: Self)
        ensures
            res@ == self@,
    {
        match self {
            Item::Bind(l, b) => Item::Bind(*l, copy_bind(b)),
            Item::Func(l, f) => Item::Func(*l, copy_func(f)),
        }
    }
}

impl Clone for File {
    fn clone(&self) -> (res: Self)
        ensures
            res@ == self@,
    {
        let mut items: Vec<Item> = Vec::new();
        let mut i: usize = 0;
        while i < self.0.len()
            invariant
                i <= self.0@.len(),
                items@.len() == i,
                forall|j: int| 0 <= j < i ==> #[trigger] items@[j]@ == self.0@[j]@,
            decreases self.0@.len() - i,
        {
            let it = self.0[i].clone();
            items.push(it);
            i = i + 1;
        }
        let res = File(items);
        assert forall|j: int| 0 <= j < res@.len() implies res@[j] == self@[j] by {
            assert(items@[j]@ == self.0@[j]@);
        }
        assert(res@ =~= self@);
        res
    }
}

impl Clone for Num {
    fn clone(&self) -> (res: Self)
        ensures
            res@ == self@,
    {
        Num(self.0)
    }
}

impl Clone for Str {
    fn clone(&self) -> (res: Self)
        ensures
            res@ == self@,
    {
        Str(self.0.clone())
    }
}

impl Clone for Arr {
    fn clone(&self) -> (res: Self)
        ensures
            res@ == self@,
    {
        Arr(self.0)
    }
}

impl Clone for Name {
    fn clone(&self) -> (res: Self)
        ensures
            res@ == self@,
    {
        self.copy()
    }
}

impl Clone for Path {
    fn clone(&self) -> (res: Self)
        ensures
            res@ == self@,
    {
        self.copy()
    }
}

// ---------------------------------------------------------------------
// Conversions between primaries and statements and their variants' contents.

impl From<Arr> for Prim {
    fn from(v: Arr) -> (r: Self) {
        Prim::Arr(v)
    }
}

impl vstd::std_specs::convert::FromSpecImpl<Arr> for Prim {
    open spec fn obeys_from_spec() -> bool {
        true
    }

    open spec fn from_spec(v: Arr) -> Self {
        Prim::Arr(v)
    }
}

impl TryFrom<Prim> for Arr {
    type Error = Prim;

    fn try_from(v: Prim) -> (r: Result<Self, Prim>) {
        match v {
            Prim::Arr(x) => Ok(x),
            other => Err(other),
        }
    }
}

impl vstd::std_specs::convert::TryFromSpecImpl<Prim> for Arr {
    open spec fn obeys_try_from_spec() -> bool {
        true
    }

    open spec fn try_from_spec(v: Prim) -> Result<Self, Prim> {
        match v {
            Prim::Arr(x) => Ok(x),
            other => Err(other),
        }
    }
}

impl From<Num> for Prim {
    fn from(v: Num) -> (r: Self) {
        Prim::Num(v)
    }
}

impl vstd::std_specs::convert::FromSpecImpl<Num> for Prim {
    open spec fn obeys_from_spec() -> bool {
        true
    }

    open spec fn from_spec(v: Num) -> Self {
        Prim::Num(v)
    }
}

impl TryFrom<Prim> for Num {
    type Error = Prim;

    fn try_from(v: Prim) -> (r: Result<Self, Prim>) {
        match v {
            Prim::Num(x) => Ok(x),
            other => Err(other),
        }
    }
}

impl vstd::std_specs::convert::TryFromSpecImpl<Prim> for Num {
    open spec fn obeys_try_from_spec() -> bool {
        true
    }

    open spec fn try_from_spec(v: Prim) -> Result<Self, Prim> {
        match v {
            Prim::Num(x) => Ok(x),
            other => Err(other),
        }
    }
}

impl From<Str> for Prim {
    fn from(v: Str) -> (r: Self) {
        Prim::Str(v)
    }
}

impl vstd::std_specs::convert::FromSpecImpl<Str> for Prim {
    open spec fn obeys_from_spec() -> bool {
        true
    }

    open spec fn from_spec(v: Str) -> Self {
        Prim::Str(v)
    }
}

impl TryFrom<Prim> for Str {
    type Error = Prim;

    fn try_from(v: Prim) -> (r: Result<Self, Prim>) {
        match v {
            Prim::Str(x) => Ok(x),
            other => Err(other),
        }
    }
}

impl vstd::std_specs::convert::TryFromSpecImpl<Prim> for Str {
    open spec fn obeys_try_from_spec() -> bool {
        true
    }

    open spec fn try_from_spec(v: Prim) -> Result<Self, Prim> {
        match v {
            Prim::Str(x) => Ok(x),
            other => Err(other),
        }
    }
}

impl From<bool> for Prim {
    fn from(v: bool) -> (r: Self) {
        Prim::Bool(v)
    }
}

impl vstd::std_specs::convert::FromSpecImpl<bool> for Prim {
    open spec fn obeys_from_spec() -> bool {
        true
    }

    open spec fn from_spec(v: bool) -> Self {
        Prim::Bool(v)
    }
}

impl TryFrom<Prim> for bool {
    type Error = Prim;

    fn try_from(v: Prim) -> (r: Result<Self, Prim>) {
        match v {
            Prim::Bool(x) => Ok(x),
            other => Err(other),
        }
    }
}

impl vstd::std_specs::convert::TryFromSpecImpl<Prim> for bool {
    open spec fn obeys_try_from_spec() -> bool {
        true
    }

    open spec fn try_from_spec(v: Prim) -> Result<Self, Prim> {
        match v {
            Prim::Bool(x) => Ok(x),
            other => Err(other),
        }
    }
}

impl From<Path> for Prim {
    fn from(v: Path) -> (r: Self) {
        Prim::Path(v)
    }
}

impl vstd::std_specs::convert::FromSpecImpl<Path> for Prim {
    open spec fn obeys_from_spec() -> bool {
        true
    }

    open spec fn from_spec(v: Path) -> Self {
        Prim::Path(v)
    }
}

impl TryFrom<Prim> for Path {
    type Error = Prim;

    fn try_from(v: Prim) -> (r: Result<Self, Prim>) {
        match v {
            Prim::Path(x) => Ok(x),
            other => Err(other),
        }
    }
}

impl vstd::std_specs::convert::TryFromSpecImpl<Prim> for Path {
    open spec fn obeys_try_from_spec() -> bool {
        true
    }

    open spec fn try_from_spec(v: Prim) -> Result<Self, Prim> {
        match v {
            Prim::Path(x) => Ok(x),
            other => Err(other),
        }
    }
}

impl From<Call> for Prim {
    fn from(v: Call) -> (r: Self) {
        Prim::Call(v)
    }
}

impl vstd::std_specs::convert::FromSpecImpl<Call> for Prim {
    open spec fn obeys_from_spec() -> bool {
        true
    }

    open spec fn from_spec(v: Call) -> Self {
        Prim::Call(v)
    }
}

impl TryFrom<Prim> for Call {
    type Error = Prim;

    fn try_from(v: Prim) -> (r: Result<Self, Prim>) {
        match v {
            Prim::Call(x) => Ok(x),
            other => Err(other),
        }
    }
}

impl vstd::std_specs::convert::TryFromSpecImpl<Prim> for Call {
    open spec fn obeys_try_from_spec() -> bool {
        true
    }

    open spec fn try_from_spec(v: Prim) -> Result<Self, Prim> {
        match v {
            Prim::Call(x) => Ok(x),
            other => Err(other),
        }
    }
}

impl From<Box<Expr>> for Prim {
    fn from(v: Box<Expr>) -> (r: Self) {
        Prim::Sect(v)
    }
}

impl vstd::std_specs::convert::FromSpecImpl<Box<Expr>> for Prim {
    open spec fn obeys_from_spec() -> bool {
        true
    }

    open spec fn from_spec(v: Box<Expr>) -> Self {
        Prim::Sect(v)
    }
}

impl TryFrom<Prim> for Box<Expr> {
    type Error = Prim;

    fn try_from(v: Prim) -> (r: Result<Self, Prim>) {
        match v {
            Prim::Sect(x) => Ok(x),
            other => Err(other),
        }
    }
}

impl vstd::std_specs::convert::TryFromSpecImpl<Prim> for Box<Expr> {
    open spec fn obeys_try_from_spec() -> bool {
        true
    }

    open spec fn try_from_spec(v: Prim) -> Result<Self, Prim> {
        match v {
            Prim::Sect(x) => Ok(x),
            other => Err(other),
        }
    }
}

impl From<Bind> for Stmt {
    fn from(v: Bind) -> (r: Self) {
        Stmt::Bind(v)
    }
}

impl vstd::std_specs::convert::FromSpecImpl<Bind> for Stmt {
    open spec fn obeys_from_spec() -> bool {
        true
    }

    open spec fn from_spec(v: Bind) -> Self {
        Stmt::Bind(v)
    }
}

impl TryFrom<Stmt> for Bind {
    type Error = Stmt;

    fn try_from(v: Stmt) -> (r: Result<Self, Stmt>) {
        match v {
            Stmt::Bind(x) => Ok(x),
            other => Err(other),
        }
    }
}

impl vstd::std_specs::convert::TryFromSpecImpl<Stmt> for Bind {
    open spec fn obeys_try_from_spec() -> bool {
        true
    }

    open spec fn try_from_spec(v: Stmt) -> Result<Self, Stmt> {
        match v {
            Stmt::Bind(x) => Ok(x),
            other => Err(other),
        }
    }
}

impl From<Assn> for Stmt {
    fn from(v: Assn) -> (r: Self) {
        Stmt::Assn(v)
    }
}

impl vstd::std_specs::convert::FromSpecImpl<Assn> for Stmt {
    open spec fn obeys_from_spec() -> bool {
        true
    }

    open spec fn from_spec(v: Assn) -> Self {
        Stmt::Assn(v)
    }
}

impl TryFrom<Stmt> for Assn {
    type Error = Stmt;

    fn try_from(v: Stmt) -> (r: Result<Self, Stmt>) {
        match v {
            Stmt::Assn(x) => Ok(x),
            other => Err(other),
        }
    }
}

impl vstd::std_specs::convert::TryFromSpecImpl<Stmt> for Assn {
    open spec fn obeys_try_from_spec() -> bool {
        true
    }

    open spec fn try_from_spec(v: Stmt) -> Result<Self, Stmt> {
        match v {
            Stmt::Assn(x) => Ok(x),
            other => Err(other),
        }
    }
}

impl From<Func> for Stmt {
    fn from(v: Func) -> (r: Self) {
        Stmt::Func(v)
    }
}

impl vstd::std_specs::convert::FromSpecImpl<Func> for Stmt {
    open spec fn obeys_from_spec() -> bool {
        true
    }

    open spec fn from_spec(v: Func) -> Self {
        Stmt::Func(v)
    }
}

impl TryFrom<Stmt> for Func {
    type Error = Stmt;

    fn try_from(v: Stmt) -> (r: Result<Self, Stmt>) {
        match v {
            Stmt::Func(x) => Ok(x),
            other => Err(other),
        }
    }
}

impl vstd::std_specs::convert::TryFromSpecImpl<Stmt> for Func {
    open spec fn obeys_try_from_spec() -> bool {
        true
    }

    open spec fn try_from_spec(v: Stmt) -> Result<Self, Stmt> {
        match v {
            Stmt::Func(x) => Ok(x),
            other => Err(other),
        }
    }
}

impl From<Call> for Stmt {
    fn from(v: Call) -> (r: Self) {
        Stmt::Call(v)
    }
}

impl vstd::std_specs::convert::FromSpecImpl<Call> for Stmt {
    open spec fn obeys_from_spec() -> bool {
        true
    }

    open spec fn from_spec(v: Call) -> Self {
        Stmt::Call(v)
    }
}

impl TryFrom<Stmt> for Call {
    type Error = Stmt;

    fn try_from(v: Stmt) -> (r: Result<Self, Stmt>) {
        match v {
            Stmt::Call(x) => Ok(x),
            other => Err(other),
        }
    }
}

impl vstd::std_specs::convert::TryFromSpecImpl<Stmt> for Call {
    open spec fn obeys_try_from_spec() -> bool {
        true
    }

    open spec fn try_from_spec(v: Stmt) -> Result<Self, Stmt> {
        match v {
            Stmt::Call(x) => Ok(x),
            other => Err(other),
        }
    }
}

impl From<Cond> for Stmt {
    fn from(v: Cond) -> (r: Self) {
        Stmt::Cond(v)
    }
}

impl vstd::std_specs::convert::FromSpecImpl<Cond> for Stmt {
    open spec fn obeys_from_spec() -> bool {
        true
    }

    open spec fn from_spec(v: Cond) -> Self {
        Stmt::Cond(v)
    }
}

impl TryFrom<Stmt> for Cond {
    type Error = Stmt;

    fn try_from(v: Stmt) -> (r: Result<Self, Stmt>) {
        match v {
            Stmt::Cond(x) => Ok(x),
            other => Err(other),
        }
    }
}

impl vstd::std_specs::convert::TryFromSpecImpl<Stmt> for Cond {
    open spec fn obeys_try_from_spec() -> bool {
        true
    }

    open spec fn try_from_spec(v: Stmt) -> Result<Self, Stmt> {
        match v {
            Stmt::Cond(x) => Ok(x),
            other => Err(other),
        }
    }
}

impl From<Loop> for Stmt {
    fn from(v: Loop) -> (r: Self) {
        Stmt::Loop(v)
    }
}

impl vstd::std_specs::convert::FromSpecImpl<Loop> for Stmt {
    open spec fn obeys_from_spec() -> bool {
        true
    }

    open spec fn from_spec(v: Loop) -> Self {
        Stmt::Loop(v)
    }
}

impl TryFrom<Stmt> for Loop {
    type Error = Stmt;

    fn try_from(v: Stmt) -> (r: Result<Self, Stmt>) {
        match v {
            Stmt::Loop(x) => Ok(x),
            other => Err(other),
        }
    }
}

impl vstd::std_specs::convert::TryFromSpecImpl<Stmt> for Loop {
    open spec fn obeys_try_from_spec() -> bool {
        true
    }

    open spec fn try_from_spec(v: Stmt) -> Result<Self, Stmt> {
        match v {
            Stmt::Loop(x) => Ok(x),
            other => Err(other),
        }
    }
}

} // verus!
