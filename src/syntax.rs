//! The Python syntax tree that the analysis walks.
//!
//! It keeps, of each node kind of the grammar, what the analysis reads: names,
//! attribute names and child nodes. Literals carry nothing.
use vstd::prelude::*;

verus! {

/// An expression node.
#[derive(Debug)]
pub enum Expr {
    BoolOp { values: Vec<Expr> },
    NamedExpr { target: Box<Expr>, value: Box<Expr> },
    BinOp { left: Box<Expr>, right: Box<Expr> },
    UnaryOp { operand: Box<Expr> },
    Lambda { body: Box<Expr> },
    IfExp { test: Box<Expr>, body: Box<Expr>, orelse: Box<Expr> },
    Dict { keys: Vec<Option<Expr>>, values: Vec<Expr> },
    SetDisplay { elts: Vec<Expr> },
    ListComp { elt: Box<Expr>, generators: Vec<Comprehension> },
    SetComp { elt: Box<Expr>, generators: Vec<Comprehension> },
    DictComp { key: Box<Expr>, value: Box<Expr>, generators: Vec<Comprehension> },
    GeneratorExp { elt: Box<Expr>, generators: Vec<Comprehension> },
    Await { value: Box<Expr> },
    Yield { value: Option<Box<Expr>> },
    YieldFrom { value: Box<Expr> },
    Compare { left: Box<Expr>, comparators: Vec<Expr> },
    Call { func: Box<Expr>, args: Vec<Expr>, keywords: Vec<Keyword> },
    FormattedValue { value: Box<Expr>, format_spec: Option<Box<Expr>> },
    JoinedStr { values: Vec<Expr> },
    Constant,
    Attribute { value: Box<Expr>, attr: String },
    Subscript { value: Box<Expr>, slice: Box<Expr> },
    Starred { value: Box<Expr> },
    Name { id: String },
    List { elts: Vec<Expr> },
    Tuple { elts: Vec<Expr> },
    Slice { lower: Option<Box<Expr>>, upper: Option<Box<Expr>>, step: Option<Box<Expr>> },
}

/// A keyword argument `arg=value` of a call (`**value` when `arg` is absent).
#[derive(Debug)]
pub struct Keyword {
    pub arg: Option<String>,
    pub value: Expr,
}

/// One `for target in iter if ...` clause of a comprehension.
#[derive(Debug)]
pub struct Comprehension {
    pub target: Expr,
    pub iter: Expr,
    pub ifs: Vec<Expr>,
}

/// A statement node.
#[derive(Debug)]
pub enum Stmt {
    FunctionDef(FunctionDefStmt),
    AsyncFunctionDef(FunctionDefStmt),
    ClassDef { name: String, body: Vec<Stmt> },
    Return { value: Option<Expr> },
    Delete { targets: Vec<Expr> },
    Assign { targets: Vec<Expr>, value: Expr },
    TypeAlias,
    AugAssign { target: Expr, value: Expr },
    AnnAssign { target: Expr, annotation: Expr, value: Option<Expr> },
    For { target: Expr, iter: Expr, body: Vec<Stmt>, orelse: Vec<Stmt> },
    AsyncFor { target: Expr, iter: Expr, body: Vec<Stmt>, orelse: Vec<Stmt> },
    While { test: Expr, body: Vec<Stmt>, orelse: Vec<Stmt> },
    If { test: Expr, body: Vec<Stmt>, orelse: Vec<Stmt> },
    With { items: Vec<WithItem>, body: Vec<Stmt> },
    AsyncWith { items: Vec<WithItem>, body: Vec<Stmt> },
    Match { subject: Expr, cases: Vec<MatchCase> },
    Raise { exc: Option<Expr>, cause: Option<Expr> },
    Try { body: Vec<Stmt>, handlers: Vec<ExceptHandler>, orelse: Vec<Stmt>, finalbody: Vec<Stmt> },
    TryStar {
        body: Vec<Stmt>,
        handlers: Vec<ExceptHandler>,
        orelse: Vec<Stmt>,
        finalbody: Vec<Stmt>,
    },
    Assert { test: Expr, msg: Option<Expr> },
    Import { names: Vec<Alias> },
    ImportFrom,
    Global,
    Nonlocal,
    Expr { value: Expr },
    Pass,
    Break,
    Continue,
}

/// A `def` or `async def`: its name, decorators and body.
#[derive(Debug)]
pub struct FunctionDefStmt {
    pub name: String,
    pub decorator_list: Vec<Expr>,
    pub body: Vec<Stmt>,
}

/// One `context_expr as optional_vars` item of a `with` statement.
#[derive(Debug)]
pub struct WithItem {
    pub context_expr: Expr,
    pub optional_vars: Option<Expr>,
}

/// One `case` of a `match` statement: its guard and body.
#[derive(Debug)]
pub struct MatchCase {
    pub guard: Option<Expr>,
    pub body: Vec<Stmt>,
}

/// One `except` clause: the exception type it names, if any, and its body.
#[derive(Debug)]
pub struct ExceptHandler {
    pub type_: Option<Expr>,
    pub body: Vec<Stmt>,
}

/// One `name as asname` of an `import` statement.
#[derive(Debug, Clone)]
pub struct Alias {
    pub name: String,
    pub asname: Option<String>,
}

} // verus!
