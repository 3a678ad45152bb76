//! The debug rendering of the syntax tree, which shows its structure:
//! `Add(1:3){Num(1:1){1}, Num(1:5){2}}` for `1 + 2`.
use vstd::prelude::*;
use crate::ast::{Arg, ArgList, BinaryOpType, Expr, Module, Position, Stmt, Type, UnaryOpType};
use crate::text::{decimal, decimal_string};

verus! {

/// `(line:column)`.
pub open spec fn position_text(p: Position) -> Seq<char> {
    "("@ + decimal(p.line as nat) + ":"@ + decimal(p.column as nat) + ")"@
}

pub open spec fn type_text(t: Type) -> Seq<char> {
    "int"@
}

pub open spec fn unary_text(op: UnaryOpType) -> Seq<char> {
    match op {
        UnaryOpType::Plus => "Plus"@,
        UnaryOpType::Minus => "Minus"@,
    }
}

pub open spec fn binary_text(op: BinaryOpType) -> Seq<char> {
    match op {
        BinaryOpType::Add => "Add"@,
        BinaryOpType::Sub => "Sub"@,
        BinaryOpType::Mul => "Mul"@,
        BinaryOpType::Div => "Div"@,
        BinaryOpType::Assign => "Assign"@,
        BinaryOpType::Inc => "Inc"@,
        BinaryOpType::Dec => "Dec"@,
        BinaryOpType::Eq => "Eq"@,
        BinaryOpType::Ne => "Ne"@,
        BinaryOpType::Lt => "Lt"@,
        BinaryOpType::Le => "Le"@,
        BinaryOpType::Gt => "Gt"@,
        BinaryOpType::Ge => "Ge"@,
    }
}

/// The rendering of an expression.
pub open spec fn expr_text(e: Expr) -> Seq<char>
    decreases e, 0int,
{
    match e {
        Expr::Id { name, position } => "Id"@ + position_text(position) + "{'"@ + name@ + "'}"@,
        Expr::Number { value, position } => "Num"@ + position_text(position) + "{"@ + decimal(
            value as nat,
        ) + "}"@,
        Expr::UnaryOp { op, rhs, position } => unary_text(op) + position_text(position) + "{"@
            + expr_text(*rhs) + "}"@,
        Expr::BinaryOp { op, lhs, rhs, position } => binary_text(op) + position_text(position) + "{"@
            + expr_text(*lhs) + ", "@ + expr_text(*rhs) + "}"@,
        Expr::Call { name, args, position } => "Call"@ + position_text(position) + "{'"@ + name@
            + "',"@ + args_text(args@, 0) + "\n}"@,
    }
}

/// Each call argument from position `i` on, as `\n  <i>: <arg>`.
pub open spec fn args_text(args: Seq<Box<Expr>>, i: int) -> Seq<char>
    decreases args, args.len() - i,
{
    if i < 0 || i >= args.len() {
        seq![]
    } else {
        "\n  "@ + decimal(i as nat) + ": "@ + expr_text(*args[i]) + args_text(args, i + 1)
    }
}

pub open spec fn arg_text(a: Arg) -> Seq<char> {
    "'"@ + a.name@ + "'"@
}

/// The parameters from position `i` on, separated by `, `.
pub open spec fn params_text(params: Seq<Arg>, i: int) -> Seq<char>
    decreases params.len() - i,
{
    if i < 0 || i >= params.len() {
        seq![]
    } else {
        (if i == 0 { seq![] } else { ", "@ }) + arg_text(params[i]) + params_text(params, i + 1)
    }
}

pub open spec fn arglist_text(a: ArgList) -> Seq<char> {
    "["@ + params_text(a.container@, 0) + "]"@
}

pub open spec fn opt_text(e: Option<Box<Expr>>, sep: Seq<char>) -> Seq<char> {
    match e {
        Some(x) => expr_text(*x) + sep,
        None => seq![],
    }
}

/// The rendering of a statement.
pub open spec fn stmt_text(s: Stmt) -> Seq<char>
    decreases s, 0int, 0int,
{
    match s {
        Stmt::ExprStmt { expr } => "Stmt("@ + expr_text(*expr) + ")"@,
        Stmt::IfStmt { cond, true_body, false_body } => "If("@ + expr_text(*cond) + ") {\n"@
            + stmts_text(true_body@, 0) + "}"@ + match false_body {
            Some(fb) => " Else {\n"@ + stmts_text(fb@, 0) + "}"@,
            None => seq![],
        },
        Stmt::ForStmt { cond, prologue, epilogue, body } => "for(\n"@ + opt_text(prologue, ","@)
            + opt_text(cond, ","@) + opt_text(epilogue, seq![]) + ") {"@ + stmts_text(body@, 0)
            + "}"@,
        Stmt::ReturnStmt { expr } => "Return("@ + opt_text(expr, seq![]) + ")"@,
        Stmt::FnStmt { name, args, body, ret_type } => "Fn("@ + name@ + ", "@ + arglist_text(args)
            + ") -> "@ + type_text(ret_type) + " {"@ + fn_body_text(body@, 0) + "}"@,
    }
}

/// The statements from position `i` on, each as `  <i>: <stmt>\n`.
pub open spec fn stmts_text(b: Seq<Box<Stmt>>, i: int) -> Seq<char>
    decreases b, 1int, b.len() - i,
{
    if i < 0 || i >= b.len() {
        seq![]
    } else {
        "  "@ + decimal(i as nat) + ": "@ + stmt_text(*b[i]) + "\n"@ + stmts_text(b, i + 1)
    }
}

/// A function body's statements from position `i` on, each as `\n  <i>: <stmt>`.
pub open spec fn fn_body_text(b: Seq<Box<Stmt>>, i: int) -> Seq<char>
    decreases b, 0int, b.len() - i,
{
    if i < 0 || i >= b.len() {
        seq![]
    } else {
        "\n  "@ + decimal(i as nat) + ": "@ + stmt_text(*b[i]) + fn_body_text(b, i + 1)
    }
}

pub open spec fn module_text(m: Module) -> Seq<char> {
    "Module {\n"@ + stmts_text(m.stmt_list@, 0) + "}"@
}

fn cat(s: &mut String, t: &str)
    ensures
        final(s)@ == old(s)@ + t@,
{
    s.append(t);
}

impl Position {
    pub fn to_simple_string(&self) -> (r: String)
        ensures
            r@ == position_text(*self),
    {
        let mut s = String::from_str("(");
        cat(&mut s, decimal_string(self.line as u64).as_str());
        cat(&mut s, ":");
        cat(&mut s, decimal_string(self.column as u64).as_str());
        cat(&mut s, ")");
        s
    }
}

impl Type {
    pub fn to_simple_string(&self) -> (r: String)
        ensures
            r@ == type_text(*self),
    {
        match self {
            Type::Int => String::from_str("int"),
        }
    }
}

impl UnaryOpType {
    pub fn to_simple_string(&self) -> (r: String)
        ensures
            r@ == unary_text(*self),
    {
        match self {
            UnaryOpType::Plus => String::from_str("Plus"),
            UnaryOpType::Minus => String::from_str("Minus"),
        }
    }
}

impl BinaryOpType {
    pub fn to_simple_string(&self) -> (r: String)
        ensures
            r@ == binary_text(*self),
    {
        let t = match self {
            BinaryOpType::Add => "Add",
            BinaryOpType::Sub => "Sub",
            BinaryOpType::Mul => "Mul",
            BinaryOpType::Div => "Div",
            BinaryOpType::Assign => "Assign",
            BinaryOpType::Inc => "Inc",
            BinaryOpType::Dec => "Dec",
            BinaryOpType::Eq => "Eq",
            BinaryOpType::Ne => "Ne",
            BinaryOpType::Lt => "Lt",
            BinaryOpType::Le => "Le",
            BinaryOpType::Gt => "Gt",
            BinaryOpType::Ge => "Ge",
        };
        String::from_str(t)
    }
}

impl Expr {
    pub fn to_simple_string(&self) -> (r: String)
        ensures
            r@ == expr_text(*self),
        decreases self, 0int,
    {
        match self {
            Expr::Id { name, position } => {
                let mut s = String::from_str("Id");
                cat(&mut s, position.to_simple_string().as_str());
                cat(&mut s, "{'");
                cat(&mut s, name.as_str());
                cat(&mut s, "'}");
                s
            },
            Expr::Number { value, position } => {
                let mut s = String::from_str("Num");
                cat(&mut s, position.to_simple_string().as_str());
                cat(&mut s, "{");
                cat(&mut s, decimal_string(*value).as_str());
                cat(&mut s, "}");
                s
            },
            Expr::UnaryOp { op, rhs, position } => {
                let mut s = op.to_simple_string();
                cat(&mut s, position.to_simple_string().as_str());
                cat(&mut s, "{");
                cat(&mut s, rhs.to_simple_string().as_str());
                cat(&mut s, "}");
                s
            },
            Expr::BinaryOp { op, lhs, rhs, position } => {
                let mut s = op.to_simple_string();
                cat(&mut s, position.to_simple_string().as_str());
                cat(&mut s, "{");
                cat(&mut s, lhs.to_simple_string().as_str());
                cat(&mut s, ", ");
                cat(&mut s, rhs.to_simple_string().as_str());
                cat(&mut s, "}");
                s
            },
            Expr::Call { name, args, position } => {
                let mut s = String::from_str("Call");
                cat(&mut s, position.to_simple_string().as_str());
                cat(&mut s, "{'");
                cat(&mut s, name.as_str());
                cat(&mut s, "',");
                cat(&mut s, args_to_string(args, 0).as_str());
                cat(&mut s, "\n}");
                s
            },
        }
    }
}

fn args_to_string(args: &Vec<Box<Expr>>, i: usize) -> (r: String)
    requires
        i <= args@.len(),
    ensures
        r@ == args_text(args@, i as int),
    decreases args@, args@.len() - i,
{
    if i >= args.len() {
        return String::new();
    }
    let mut s = String::from_str("\n  ");
    cat(&mut s, decimal_string(i as u64).as_str());
    cat(&mut s, ": ");
    cat(&mut s, args[i].to_simple_string().as_str());
    cat(&mut s, args_to_string(args, i + 1).as_str());
    s
}

impl Arg {
    pub fn to_simple_string(&self) -> (r: String)
        ensures
            r@ == arg_text(*self),
    {
        let mut s = String::from_str("'");
        cat(&mut s, self.name.as_str());
        cat(&mut s, "'");
        s
    }
}

impl ArgList {
    pub fn to_simple_string(&self) -> (r: String)
        ensures
            r@ == arglist_text(*self),
    {
        let mut s = String::from_str("[");
        let n = self.container.len();
        let mut i: usize = 0;
        while i < n
            invariant
                n == self.container@.len(),
                i <= n,
                s@ + params_text(self.container@, i as int) == "["@ + params_text(self.container@, 0),
            decreases n - i,
        {
            let ghost before = s@;
            if i != 0 {
                cat(&mut s, ", ");
            }
            cat(&mut s, self.container[i].to_simple_string().as_str());
            proof {
                let rest = params_text(self.container@, i + 1);
                let sep = if i == 0 { seq![] } else { ", "@ };
                assert(params_text(self.container@, i as int) == sep + arg_text(self.container@[i as int])
                    + rest);
                assert(s@ =~= before + sep + arg_text(self.container@[i as int]));
                assert(s@ + rest =~= before + params_text(self.container@, i as int));
            }
            i = i + 1;
        }
        cat(&mut s, "]");
        s
    }
}

impl Stmt {
    pub fn to_simple_string(&self) -> (r: String)
        ensures
            r@ == stmt_text(*self),
        decreases self, 0int, 0int,
    {
        match self {
            Stmt::ExprStmt { expr } => {
                let mut s = String::from_str("Stmt(");
                cat(&mut s, expr.to_simple_string().as_str());
                cat(&mut s, ")");
                s
            },
            Stmt::IfStmt { cond, true_body, false_body } => {
                let mut s = String::from_str("If(");
                cat(&mut s, cond.to_simple_string().as_str());
                cat(&mut s, ") {\n");
                cat(&mut s, stmt_list_to_string(true_body, 0).as_str());
                cat(&mut s, "}");
                match false_body {
                    Some(body) => {
                        cat(&mut s, " Else {\n");
                        cat(&mut s, stmt_list_to_string(body, 0).as_str());
                        cat(&mut s, "}");
                    },
                    None => {},
                }
                s
            },
            Stmt::ForStmt { cond, prologue, epilogue, body } => {
                let mut s = String::from_str("for(\n");
                if let Some(expr) = prologue {
                    cat(&mut s, expr.to_simple_string().as_str());
                    cat(&mut s, ",");
                }
                if let Some(expr) = cond {
                    cat(&mut s, expr.to_simple_string().as_str());
                    cat(&mut s, ",");
                }
                if let Some(expr) = epilogue {
                    cat(&mut s, expr.to_simple_string().as_str());
                }
                cat(&mut s, ") {");
                cat(&mut s, stmt_list_to_string(body, 0).as_str());
                cat(&mut s, "}");
                s
            },
            Stmt::ReturnStmt { expr } => {
                let mut s = String::from_str("Return(");
                if let Some(expr) = expr {
                    cat(&mut s, expr.to_simple_string().as_str());
                }
                cat(&mut s, ")");
                s
            },
            Stmt::FnStmt { name, args, body, ret_type } => {
                let mut s = String::from_str("Fn(");
                cat(&mut s, name.as_str());
                cat(&mut s, ", ");
                cat(&mut s, args.to_simple_string().as_str());
                cat(&mut s, ") -> ");
                cat(&mut s, ret_type.to_simple_string().as_str());
                cat(&mut s, " {");
                cat(&mut s, fn_body_to_string(body, 0).as_str());
                cat(&mut s, "}");
                s
            },
        }
    }
}

/// The statements of a list from position `i` on, one per line with its index.
pub fn stmt_list_to_string(stmt_list: &Vec<Box<Stmt>>, i: usize) -> (r: String)
    requires
        i <= stmt_list@.len(),
    ensures
        r@ == stmts_text(stmt_list@, i as int),
    decreases stmt_list@, 1int, stmt_list@.len() - i,
{
    if i >= stmt_list.len() {
        return String::new();
    }
    let mut s = String::from_str("  ");
    cat(&mut s, decimal_string(i as u64).as_str());
    cat(&mut s, ": ");
    cat(&mut s, stmt_list[i].to_simple_string().as_str());
    cat(&mut s, "\n");
    cat(&mut s, stmt_list_to_string(stmt_list, i + 1).as_str());
    s
}

fn fn_body_to_string(body: &Vec<Box<Stmt>>, i: usize) -> (r: String)
    requires
        i <= body@.len(),
    ensures
        r@ == fn_body_text(body@, i as int),
    decreases body@, 0int, body@.len() - i,
{
    if i >= body.len() {
        return String::new();
    }
    let mut s = String::from_str("\n  ");
    cat(&mut s, decimal_string(i as u64).as_str());
    cat(&mut s, ": ");
    cat(&mut s, body[i].to_simple_string().as_str());
    cat(&mut s, fn_body_to_string(body, i + 1).as_str());
    s
}

impl Module {
    pub fn to_simple_string(&self) -> (r: String)
        ensures
            r@ == module_text(*self),
    {
        let mut s = String::from_str("Module {\n");
        cat(&mut s, stmt_list_to_string(&self.stmt_list, 0).as_str());
        cat(&mut s, "}");
        s
    }
}

} // verus!
