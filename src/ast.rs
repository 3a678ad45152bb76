//! The syntax tree: expressions, statements and modules.
use vstd::prelude::*;

verus! {

/// A place in the source text.
#[derive(Debug, Clone, Copy, PartialEq, Eq, Structural)]
pub struct Position {
    pub line: usize,
    pub column: usize,
}

/// The built-in value types of the language.
#[derive(Debug, Clone, Copy, PartialEq, Eq, Structural)]
pub enum Type {
    Int,
}

/// Prefix operators.
#[derive(Debug, Clone, Copy, PartialEq, Eq, Structural)]
pub enum UnaryOpType {
    Plus,
    Minus,
}

/// Infix operators; `Inc` and `Dec` are `+=` and `-=`.
#[derive(Debug, Clone, Copy, PartialEq, Eq, Structural)]
pub enum BinaryOpType {
    Add,
    Sub,
    Mul,
    Div,
    Assign,
    Inc,
    Dec,
    Eq,
    Ne,
    Lt,
    Le,
    Gt,
    Ge,
}

/// An expression; each node owns its children.
#[derive(Debug)]
#[allow(inconsistent_fields)]
pub enum Expr {
    Id { name: String, position: Position },
    Number { value: u64, position: Position },
    Call { name: String, args: Vec<Box<Expr>>, position: Position },
    UnaryOp { op: UnaryOpType, rhs: Box<Expr>, position: Position },
    BinaryOp { op: BinaryOpType, lhs: Box<Expr>, rhs: Box<Expr>, position: Position },
}

/// A named, typed function parameter.
#[derive(Debug)]
pub struct Arg {
    pub name: String,
    pub typ: Type,
}

/// The parameters of a function, in declaration order.
#[derive(Debug)]
pub struct ArgList {
    pub container: Vec<Arg>,
}

impl ArgList {
    pub fn new() -> (r: ArgList)
        ensures
            r.container@.len() == 0,
    {
        ArgList { container: Vec::new() }
    }

    pub fn push(&mut self, arg: Arg)
        ensures
            final(self).container@ == old(self).container@.push(arg),
    {
        self.container.push(arg);
    }
}

/// A statement.
#[derive(Debug)]
#[allow(inconsistent_fields)]
pub enum Stmt {
    ExprStmt { expr: Box<Expr> },
    IfStmt { cond: Box<Expr>, true_body: Vec<Box<Stmt>>, false_body: Option<Vec<Box<Stmt>>> },
    ForStmt {
        cond: Option<Box<Expr>>,
        prologue: Option<Box<Expr>>,
        epilogue: Option<Box<Expr>>,
        body: Vec<Box<Stmt>>,
    },
    ReturnStmt { expr: Option<Box<Expr>> },
    FnStmt { name: String, args: ArgList, body: Vec<Box<Stmt>>, ret_type: Type },
}

/// A source file: its top-level statements in order.
#[derive(Debug)]
pub struct Module {
    pub stmt_list: Vec<Box<Stmt>>,
}

impl Module {
    pub fn new() -> (r: Module)
        ensures
            r.stmt_list@.len() == 0,
    {
        Module { stmt_list: Vec::new() }
    }

    pub fn add_stmt(&mut self, stmt: Box<Stmt>)
        ensures
            final(self).stmt_list@ == old(self).stmt_list@.push(stmt),
    {
        self.stmt_list.push(stmt);
    }
}

} // verus!
