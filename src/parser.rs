//! The parser: recursive descent for statements, precedence climbing for
//! expressions. From low to high binding: assignment (right-associative),
//! equality, relational, additive, multiplicative, unary prefix, primary.
use vstd::prelude::*;
use crate::ast::{Arg, ArgList, BinaryOpType, Expr, Module, Position, Stmt, Type, UnaryOpType};
use crate::token::{Keyword, Symbol, Token, TokenKind};

verus! {

/// The construct the parser was looking for.
#[derive(Debug, Clone, Copy, PartialEq, Eq, Structural)]
pub enum Expected {
    Expression,
    Identifier,
    TypeName,
    Symbol(Symbol),
}

/// A syntax error: what was expected, and the position of the token found instead.
#[derive(Debug, Clone, Copy, PartialEq, Eq, Structural)]
pub struct ParseError {
    pub expected: Expected,
    pub position: Position,
}

/// The position that stands for the end of `tokens`: that of the last
/// token, or the origin when there is none.
pub open spec fn end_position(tokens: Seq<Token>) -> Position {
    if tokens.len() == 0 {
        Position { line: 0, column: 0 }
    } else {
        tokens.last().position
    }
}

/// The position of the token at `i`, or of the end past the last token.
pub open spec fn position_at(tokens: Seq<Token>, i: int) -> Position {
    if 0 <= i < tokens.len() {
        tokens[i].position
    } else {
        end_position(tokens)
    }
}

/// Whether the token at `i` is the end: an end marker, or past the last token.
pub open spec fn is_end_at(tokens: Seq<Token>, i: int) -> bool {
    i >= tokens.len() || tokens[i].kind is Eof
}

/// The binary operator that an infix symbol stands for at `level`
/// (equality, relational, additive or multiplicative).
pub open spec fn infix_op(level: nat, s: Symbol) -> Option<BinaryOpType> {
    if level == 0 {
        match s {
            Symbol::EqEq => Some(BinaryOpType::Eq),
            Symbol::NotEq => Some(BinaryOpType::Ne),
            _ => None,
        }
    } else if level == 1 {
        match s {
            Symbol::Lt => Some(BinaryOpType::Lt),
            Symbol::Le => Some(BinaryOpType::Le),
            Symbol::Gt => Some(BinaryOpType::Gt),
            Symbol::Ge => Some(BinaryOpType::Ge),
            _ => None,
        }
    } else if level == 2 {
        match s {
            Symbol::Plus => Some(BinaryOpType::Add),
            Symbol::Minus => Some(BinaryOpType::Sub),
            _ => None,
        }
    } else {
        match s {
            Symbol::Star => Some(BinaryOpType::Mul),
            Symbol::Slash => Some(BinaryOpType::Div),
            _ => None,
        }
    }
}

/// The assignment operator that a symbol stands for.
pub open spec fn assign_op(s: Symbol) -> Option<BinaryOpType> {
    match s {
        Symbol::Assign => Some(BinaryOpType::Assign),
        Symbol::PlusAssign => Some(BinaryOpType::Inc),
        Symbol::MinusAssign => Some(BinaryOpType::Dec),
        _ => None,
    }
}

fn infix_op_of(level: usize, s: Symbol) -> (r: Option<BinaryOpType>)
    ensures
        r == infix_op(level as nat, s),
{
    if level == 0 {
        match s {
            Symbol::EqEq => Some(BinaryOpType::Eq),
            Symbol::NotEq => Some(BinaryOpType::Ne),
            _ => None,
        }
    } else if level == 1 {
        match s {
            Symbol::Lt => Some(BinaryOpType::Lt),
            Symbol::Le => Some(BinaryOpType::Le),
            Symbol::Gt => Some(BinaryOpType::Gt),
            Symbol::Ge => Some(BinaryOpType::Ge),
            _ => None,
        }
    } else if level == 2 {
        match s {
            Symbol::Plus => Some(BinaryOpType::Add),
            Symbol::Minus => Some(BinaryOpType::Sub),
            _ => None,
        }
    } else {
        match s {
            Symbol::Star => Some(BinaryOpType::Mul),
            Symbol::Slash => Some(BinaryOpType::Div),
            _ => None,
        }
    }
}

/// The shape of an expression: what the parser decides, without the
/// containers that hold it.
pub enum ExprV {
    Id(Seq<char>, Position),
    Number(u64, Position),
    Call(Seq<char>, Seq<ExprV>, Position),
    Unary(UnaryOpType, Box<ExprV>, Position),
    Binary(BinaryOpType, Box<ExprV>, Box<ExprV>, Position),
}

/// The shape of an expression tree.
pub open spec fn expr_view(e: Expr) -> ExprV
    decreases e, 0int,
{
    match e {
        Expr::Id { name, position } => ExprV::Id(name@, position),
        Expr::Number { value, position } => ExprV::Number(value, position),
        Expr::Call { name, args, position } => ExprV::Call(name@, args_view(args@, 0), position),
        Expr::UnaryOp { op, rhs, position } => ExprV::Unary(op, Box::new(expr_view(*rhs)), position),
        Expr::BinaryOp { op, lhs, rhs, position } => ExprV::Binary(
            op,
            Box::new(expr_view(*lhs)),
            Box::new(expr_view(*rhs)),
            position,
        ),
    }
}

/// The shapes of the call arguments from position `i` on.
pub open spec fn args_view(args: Seq<Box<Expr>>, i: int) -> Seq<ExprV>
    decreases args, args.len() - i,
{
    if i < 0 || i >= args.len() {
        seq![]
    } else {
        seq![expr_view(*args[i])] + args_view(args, i + 1)
    }
}

/// Whether the token at `i` is the symbol `s`.
pub open spec fn sym_at(t: Seq<Token>, i: int, s: Symbol) -> bool {
    0 <= i < t.len() && t[i].kind == TokenKind::Symbol(s)
}

/// The symbol at `i`, if the token there is one.
pub open spec fn symbol_at(t: Seq<Token>, i: int) -> Option<Symbol> {
    if 0 <= i < t.len() {
        match t[i].kind {
            TokenKind::Symbol(s) => Some(s),
            _ => None,
        }
    } else {
        None
    }
}

/// An error at the token at `i`.
pub open spec fn err_at(t: Seq<Token>, i: int, what: Expected) -> ParseError {
    ParseError { expected: what, position: position_at(t, i) }
}

/// What an expression parse gives: the shape and the index after it.
pub type ExprParse = Result<(ExprV, int), ParseError>;

/// assignment at `i`: a binary expression, then optionally an assignment
/// operator and, recursively, the right-hand assignment.
pub open spec fn sp_assign(t: Seq<Token>, i: int) -> ExprParse
    decreases t.len() - i, 20int, 0int,
{
    if i < 0 || i > t.len() {
        Err(err_at(t, i, Expected::Expression))
    } else {
        match sp_binary(t, i, 0) {
            Err(e) => Err(e),
            Ok((l, j)) => if j <= i || j > t.len() {
                Err(err_at(t, i, Expected::Expression))
            } else {
                match symbol_at(t, j) {
                    Some(s) => match assign_op(s) {
                        Some(op) => match sp_assign(t, j + 1) {
                            Err(e) => Err(e),
                            Ok((r, k)) => Ok((ExprV::Binary(op, Box::new(l), Box::new(r), position_at(t, j)), k)),
                        },
                        None => Ok((l, j)),
                    },
                    None => Ok((l, j)),
                }
            },
        }
    }
}

/// An operand of the binary level `level`.
pub open spec fn sp_operand(t: Seq<Token>, i: int, level: nat) -> ExprParse
    decreases t.len() - i, 17 - 2 * level, 0int,
{
    if level < 3 {
        sp_binary(t, i, level + 1)
    } else if level == 3 {
        sp_unary(t, i)
    } else {
        Err(err_at(t, i, Expected::Expression))
    }
}

/// binary(level) at `i`: operands joined by that level's operators, grouped
/// to the left.
pub open spec fn sp_binary(t: Seq<Token>, i: int, level: nat) -> ExprParse
    decreases t.len() - i, 18 - 2 * level, 1int,
{
    if level > 3 || i < 0 || i > t.len() {
        Err(err_at(t, i, Expected::Expression))
    } else {
        match sp_operand(t, i, level) {
            Err(e) => Err(e),
            Ok((l, j)) => if j <= i || j > t.len() {
                Err(err_at(t, i, Expected::Expression))
            } else {
                sp_binary_rest(t, j, level, l)
            },
        }
    }
}

/// The rest of a binary level after the operands so far, `acc`, at `j`.
pub open spec fn sp_binary_rest(t: Seq<Token>, j: int, level: nat, acc: ExprV) -> ExprParse
    decreases t.len() - j, 18 - 2 * level, 0int,
{
    if level > 3 || j < 0 || j > t.len() {
        Err(err_at(t, j, Expected::Expression))
    } else {
        match symbol_at(t, j) {
            Some(s) => match infix_op(level, s) {
                Some(op) => match sp_operand(t, j + 1, level) {
                    Err(e) => Err(e),
                    Ok((r, k)) => if k <= j || k > t.len() {
                        Err(err_at(t, j, Expected::Expression))
                    } else {
                        sp_binary_rest(t, k, level, ExprV::Binary(op, Box::new(acc), Box::new(r), position_at(t, j)))
                    },
                },
                None => Ok((acc, j)),
            },
            None => Ok((acc, j)),
        }
    }
}

/// unary at `i`: prefix `+` or `-` applied to a unary, or a primary.
pub open spec fn sp_unary(t: Seq<Token>, i: int) -> ExprParse
    decreases t.len() - i, 10int, 0int,
{
    if i < 0 || i > t.len() {
        Err(err_at(t, i, Expected::Expression))
    } else if sym_at(t, i, Symbol::Plus) || sym_at(t, i, Symbol::Minus) {
        let op = if sym_at(t, i, Symbol::Plus) { UnaryOpType::Plus } else { UnaryOpType::Minus };
        match sp_unary(t, i + 1) {
            Err(e) => Err(e),
            Ok((r, k)) => Ok((ExprV::Unary(op, Box::new(r), position_at(t, i)), k)),
        }
    } else {
        sp_primary(t, i)
    }
}

/// primary at `i`: a number, an identifier, a call, or a parenthesized expression.
pub open spec fn sp_primary(t: Seq<Token>, i: int) -> ExprParse
    decreases t.len() - i, 5int, 0int,
{
    if i < 0 || i >= t.len() {
        Err(err_at(t, i, Expected::Expression))
    } else {
        match t[i].kind {
            TokenKind::Number(v) => Ok((ExprV::Number(v, t[i].position), i + 1)),
            TokenKind::Ident(n) => if sym_at(t, i + 1, Symbol::LParen) {
                match sp_call_args(t, i + 1) {
                    Err(e) => Err(e),
                    Ok((args, k)) => Ok((ExprV::Call(n@, args, t[i].position), k)),
                }
            } else {
                Ok((ExprV::Id(n@, t[i].position), i + 1))
            },
            TokenKind::Symbol(Symbol::LParen) => match sp_assign(t, i + 1) {
                Err(e) => Err(e),
                Ok((e, k)) => if sym_at(t, k, Symbol::RParen) {
                    Ok((e, k + 1))
                } else {
                    Err(err_at(t, k, Expected::Symbol(Symbol::RParen)))
                },
            },
            _ => Err(err_at(t, i, Expected::Expression)),
        }
    }
}

/// Call arguments, with the `(` at `i`.
pub open spec fn sp_call_args(t: Seq<Token>, i: int) -> Result<(Seq<ExprV>, int), ParseError>
    decreases t.len() - i, 0int, 0int,
{
    if i < 0 || i >= t.len() {
        Err(err_at(t, i, Expected::Symbol(Symbol::LParen)))
    } else if sym_at(t, i + 1, Symbol::RParen) {
        Ok((seq![], i + 2))
    } else {
        sp_args_rest(t, i + 1, seq![])
    }
}

/// The remaining call arguments from `j`, after those in `acc`.
pub open spec fn sp_args_rest(t: Seq<Token>, j: int, acc: Seq<ExprV>) -> Result<(Seq<ExprV>, int), ParseError>
    decreases t.len() - j, 30int, 0int,
{
    if j < 0 || j > t.len() {
        Err(err_at(t, j, Expected::Expression))
    } else {
        match sp_assign(t, j) {
            Err(e) => Err(e),
            Ok((a, k)) => if k <= j || k > t.len() {
                Err(err_at(t, j, Expected::Expression))
            } else if sym_at(t, k, Symbol::Comma) {
                sp_args_rest(t, k + 1, acc.push(a))
            } else if sym_at(t, k, Symbol::RParen) {
                Ok((acc.push(a), k + 1))
            } else {
                Err(err_at(t, k, Expected::Symbol(Symbol::RParen)))
            },
        }
    }
}

/// What a parse that returned `r` with the cursor left at `end` means: the
/// tree has the shape the grammar gives, or the grammar fails the same way.
pub open spec fn parsed(r: Result<Box<Expr>, ParseError>, sp: ExprParse, end: nat) -> bool {
    match r {
        Ok(e) => sp == Ok::<(ExprV, int), ParseError>((expr_view(*e), end as int)),
        Err(x) => sp == Err::<(ExprV, int), ParseError>(x),
    }
}

/// Appending an argument appends its shape.
pub proof fn lemma_args_view_push(args: Seq<Box<Expr>>, a: Box<Expr>, i: int)
    requires
        0 <= i <= args.len(),
    ensures
        args_view(args.push(a), i) == args_view(args, i).push(expr_view(*a)),
    decreases args.len() - i,
{
    if i < args.len() {
        lemma_args_view_push(args, a, i + 1);
        assert(args.push(a)[i] == args[i]);
        assert(args_view(args.push(a), i) =~= args_view(args, i).push(expr_view(*a)));
    } else {
        assert(args.push(a)[i] == a);
        assert(args_view(args.push(a), i + 1) =~= Seq::<ExprV>::empty());
        assert(args_view(args.push(a), i) =~= args_view(args, i).push(expr_view(*a)));
    }
}

/// The shape of a statement.
pub enum StmtV {
    ExprS(ExprV),
    If(ExprV, Seq<StmtV>, Option<Seq<StmtV>>),
    For(Option<ExprV>, Option<ExprV>, Option<ExprV>, Seq<StmtV>),
    Return(Option<ExprV>),
    Fn(Seq<char>, Seq<Seq<char>>, Seq<StmtV>),
}

pub open spec fn opt_view(e: Option<Box<Expr>>) -> Option<ExprV> {
    match e {
        Some(x) => Some(expr_view(*x)),
        None => None,
    }
}

/// The names of a parameter list, in order.
pub open spec fn arg_names(args: Seq<Arg>) -> Seq<Seq<char>> {
    args.map_values(|a: Arg| a.name@)
}

/// The shape of a statement tree; the parameter type is always `int`.
pub open spec fn stmt_view(s: Stmt) -> StmtV
    decreases s, 0int,
{
    match s {
        Stmt::ExprStmt { expr } => StmtV::ExprS(expr_view(*expr)),
        Stmt::IfStmt { cond, true_body, false_body } => StmtV::If(
            expr_view(*cond),
            stmts_view(true_body@, 0),
            match false_body {
                Some(fb) => Some(stmts_view(fb@, 0)),
                None => None,
            },
        ),
        Stmt::ForStmt { cond, prologue, epilogue, body } => StmtV::For(
            opt_view(prologue),
            opt_view(cond),
            opt_view(epilogue),
            stmts_view(body@, 0),
        ),
        Stmt::ReturnStmt { expr } => StmtV::Return(opt_view(expr)),
        Stmt::FnStmt { name, args, body, .. } => StmtV::Fn(
            name@,
            arg_names(args.container@),
            stmts_view(body@, 0),
        ),
    }
}

/// The shapes of the statements from position `i` on.
pub open spec fn stmts_view(b: Seq<Box<Stmt>>, i: int) -> Seq<StmtV>
    decreases b, b.len() - i,
{
    if i < 0 || i >= b.len() {
        seq![]
    } else {
        seq![stmt_view(*b[i])] + stmts_view(b, i + 1)
    }
}

/// Appending a statement appends its shape.
pub proof fn lemma_stmts_view_push(b: Seq<Box<Stmt>>, x: Box<Stmt>, i: int)
    requires
        0 <= i <= b.len(),
    ensures
        stmts_view(b.push(x), i) == stmts_view(b, i).push(stmt_view(*x)),
    decreases b.len() - i,
{
    if i < b.len() {
        lemma_stmts_view_push(b, x, i + 1);
        assert(b.push(x)[i] == b[i]);
        assert(stmts_view(b.push(x), i) =~= stmts_view(b, i).push(stmt_view(*x)));
    } else {
        assert(b.push(x)[i] == x);
        assert(stmts_view(b.push(x), i + 1) =~= Seq::<StmtV>::empty());
        assert(stmts_view(b.push(x), i) =~= stmts_view(b, i).push(stmt_view(*x)));
    }
}

pub open spec fn kw_at(t: Seq<Token>, i: int, k: Keyword) -> bool {
    0 <= i < t.len() && t[i].kind == TokenKind::Keyword(k)
}

/// The index after the symbol `s` at `i`, or an error there.
pub open spec fn sp_expect(t: Seq<Token>, i: int, s: Symbol) -> Result<int, ParseError> {
    if sym_at(t, i, s) {
        Ok(i + 1)
    } else {
        Err(err_at(t, i, Expected::Symbol(s)))
    }
}

/// An identifier at `i`, or an error there.
pub open spec fn sp_ident(t: Seq<Token>, i: int) -> Result<(Seq<char>, int), ParseError> {
    if 0 <= i < t.len() && t[i].kind is Ident {
        Ok((t[i].kind->Ident_0@, i + 1))
    } else {
        Err(err_at(t, i, Expected::Identifier))
    }
}

/// An optional expression at `i`, followed by the symbol `end`.
pub open spec fn sp_opt_expr(t: Seq<Token>, i: int, end: Symbol) -> Result<(Option<ExprV>, int), ParseError> {
    if sym_at(t, i, end) {
        Ok((None, i + 1))
    } else {
        match sp_assign(t, i) {
            Err(x) => Err(x),
            Ok((e, j)) => match sp_expect(t, j, end) {
                Err(x) => Err(x),
                Ok(k) => Ok((Some(e), k)),
            },
        }
    }
}

/// Parameters from `j` on, after those named in `acc`: `int name`, separated by commas.
pub open spec fn sp_params(t: Seq<Token>, j: int, acc: Seq<Seq<char>>) -> Result<(Seq<Seq<char>>, int), ParseError>
    decreases t.len() - j,
{
    if j < 0 || j >= t.len() || !kw_at(t, j, Keyword::Int) {
        Err(err_at(t, j, Expected::TypeName))
    } else {
        match sp_ident(t, j + 1) {
            Err(x) => Err(x),
            Ok((n, k)) => if sym_at(t, k, Symbol::Comma) {
                sp_params(t, k + 1, acc.push(n))
            } else {
                Ok((acc.push(n), k))
            },
        }
    }
}

/// What a statement parse gives: the shape and the index after it.
pub type StmtParse = Result<(StmtV, int), ParseError>;

/// A statement at `i`.
pub open spec fn sp_stmt(t: Seq<Token>, i: int) -> StmtParse
    decreases t.len() - i, 2int,
{
    if i < 0 || i > t.len() {
        Err(err_at(t, i, Expected::Expression))
    } else if kw_at(t, i, Keyword::Int) {
        sp_fn(t, i)
    } else if kw_at(t, i, Keyword::If) {
        match sp_expect(t, i + 1, Symbol::LParen) {
            Err(x) => Err(x),
            Ok(j1) => match sp_assign(t, j1) {
                Err(x) => Err(x),
                Ok((c, j2)) => match sp_expect(t, j2, Symbol::RParen) {
                    Err(x) => Err(x),
                    Ok(j3) => if j3 <= i {
                        Err(err_at(t, i, Expected::Expression))
                    } else {
                        match sp_block(t, j3) {
                            Err(x) => Err(x),
                            Ok((tb, j4)) => if j4 <= i {
                                Err(err_at(t, i, Expected::Expression))
                            } else if kw_at(t, j4, Keyword::Else) {
                                match sp_block(t, j4 + 1) {
                                    Err(x) => Err(x),
                                    Ok((fb, j5)) => Ok((StmtV::If(c, tb, Some(fb)), j5)),
                                }
                            } else {
                                Ok((StmtV::If(c, tb, None), j4))
                            },
                        }
                    },
                },
            },
        }
    } else if kw_at(t, i, Keyword::For) {
        match sp_expect(t, i + 1, Symbol::LParen) {
            Err(x) => Err(x),
            Ok(j1) => match sp_opt_expr(t, j1, Symbol::Semicolon) {
                Err(x) => Err(x),
                Ok((pro, j2)) => match sp_opt_expr(t, j2, Symbol::Semicolon) {
                    Err(x) => Err(x),
                    Ok((cond, j3)) => match sp_opt_expr(t, j3, Symbol::RParen) {
                        Err(x) => Err(x),
                        Ok((epi, j4)) => if j4 <= i {
                            Err(err_at(t, i, Expected::Expression))
                        } else {
                            match sp_block(t, j4) {
                                Err(x) => Err(x),
                                Ok((body, j5)) => Ok((StmtV::For(pro, cond, epi, body), j5)),
                            }
                        },
                    },
                },
            },
        }
    } else if kw_at(t, i, Keyword::Return) {
        match sp_opt_expr(t, i + 1, Symbol::Semicolon) {
            Err(x) => Err(x),
            Ok((e, j)) => Ok((StmtV::Return(e), j)),
        }
    } else {
        match sp_assign(t, i) {
            Err(x) => Err(x),
            Ok((e, j)) => match sp_expect(t, j, Symbol::Semicolon) {
                Err(x) => Err(x),
                Ok(k) => Ok((StmtV::ExprS(e), k)),
            },
        }
    }
}

/// A function declaration, with `int` at `i`.
pub open spec fn sp_fn(t: Seq<Token>, i: int) -> StmtParse
    decreases t.len() - i, 1int,
{
    match sp_ident(t, i + 1) {
        Err(x) => Err(x),
        Ok((name, j1)) => match sp_expect(t, j1, Symbol::LParen) {
            Err(x) => Err(x),
            Ok(j2) => {
                let params = if sym_at(t, j2, Symbol::RParen) {
                    Ok((Seq::<Seq<char>>::empty(), j2))
                } else {
                    sp_params(t, j2, seq![])
                };
                match params {
                    Err(x) => Err(x),
                    Ok((ps, j3)) => match sp_expect(t, j3, Symbol::RParen) {
                        Err(x) => Err(x),
                        Ok(j4) => if j4 <= i || i < 0 {
                            Err(err_at(t, i, Expected::Expression))
                        } else {
                            match sp_block(t, j4) {
                                Err(x) => Err(x),
                                Ok((body, j5)) => Ok((StmtV::Fn(name, ps, body), j5)),
                            }
                        },
                    },
                }
            },
        }
    }
}

/// A block: `{`, statements, `}`, with the `{` at `i`.
pub open spec fn sp_block(t: Seq<Token>, i: int) -> Result<(Seq<StmtV>, int), ParseError>
    decreases t.len() - i, 0int,
{
    if i < 0 || i > t.len() {
        Err(err_at(t, i, Expected::Symbol(Symbol::LBrace)))
    } else {
        match sp_expect(t, i, Symbol::LBrace) {
            Err(x) => Err(x),
            Ok(j) => sp_block_rest(t, j, seq![]),
        }
    }
}

/// The rest of a block from `j`, after the statements in `acc`.
pub open spec fn sp_block_rest(t: Seq<Token>, j: int, acc: Seq<StmtV>) -> Result<(Seq<StmtV>, int), ParseError>
    decreases t.len() - j, 3int,
{
    if j < 0 || j > t.len() {
        Err(err_at(t, j, Expected::Symbol(Symbol::RBrace)))
    } else if sym_at(t, j, Symbol::RBrace) || is_end_at(t, j) {
        match sp_expect(t, j, Symbol::RBrace) {
            Err(x) => Err(x),
            Ok(k) => Ok((acc, k)),
        }
    } else {
        match sp_stmt(t, j) {
            Err(x) => Err(x),
            Ok((st, k)) => if k <= j || k > t.len() {
                Err(err_at(t, j, Expected::Expression))
            } else {
                sp_block_rest(t, k, acc.push(st))
            },
        }
    }
}

/// A module: statements from `i` up to the end, after those in `acc`.
pub open spec fn sp_module(t: Seq<Token>, i: int, acc: Seq<StmtV>) -> Result<Seq<StmtV>, ParseError>
    decreases t.len() - i,
{
    if i < 0 || i > t.len() {
        Err(err_at(t, i, Expected::Expression))
    } else if is_end_at(t, i) {
        Ok(acc)
    } else {
        match sp_stmt(t, i) {
            Err(x) => Err(x),
            Ok((st, k)) => if k <= i || k > t.len() {
                Err(err_at(t, i, Expected::Expression))
            } else {
                sp_module(t, k, acc.push(st))
            },
        }
    }
}

/// What a statement parse that returned `r` with the cursor left at `end` means.
pub open spec fn stmt_parsed(r: Result<Box<Stmt>, ParseError>, sp: StmtParse, end: nat) -> bool {
    match r {
        Ok(x) => sp == Ok::<(StmtV, int), ParseError>((stmt_view(*x), end as int)),
        Err(e) => sp == Err::<(StmtV, int), ParseError>(e),
    }
}

/// A cursor over a token sequence.
pub struct Parser {
    tokens: Vec<Token>,
    pos: usize,
}

impl Parser {
    /// The tokens being read.
    pub closed spec fn tokens(&self) -> Seq<Token> {
        self.tokens@
    }

    /// The index of the next token.
    pub closed spec fn cursor(&self) -> nat {
        self.pos as nat
    }

    /// The cursor stays within the tokens.
    pub closed spec fn wf(&self) -> bool {
        self.pos <= self.tokens@.len()
    }

    pub fn new(token_list: Vec<Token>) -> (r: Parser)
        ensures
            r.wf(),
            r.tokens() == token_list@,
            r.cursor() == 0,
    {
        Parser { tokens: token_list, pos: 0 }
    }

    /// The position of the next token, or of the end.
    fn position(&self) -> (r: Position)
        requires
            self.wf(),
        ensures
            r == position_at(self.tokens(), self.cursor() as int),
    {
        if self.pos < self.tokens.len() {
            self.tokens[self.pos].position
        } else if self.tokens.len() > 0 {
            self.tokens[self.tokens.len() - 1].position
        } else {
            Position { line: 0, column: 0 }
        }
    }

    fn at_end(&self) -> (r: bool)
        requires
            self.wf(),
        ensures
            r == is_end_at(self.tokens(), self.cursor() as int),
    {
        if self.pos >= self.tokens.len() {
            true
        } else {
            match &self.tokens[self.pos].kind {
                TokenKind::Eof => true,
                _ => false,
            }
        }
    }

    /// The symbol under the cursor, if the next token is one.
    fn peek_symbol(&self) -> (r: Option<Symbol>)
        requires
            self.wf(),
        ensures
            r == symbol_at(self.tokens(), self.cursor() as int),
    {
        if self.pos >= self.tokens.len() {
            return None;
        }
        match &self.tokens[self.pos].kind {
            TokenKind::Symbol(s) => Some(*s),
            _ => None,
        }
    }

    fn at_keyword(&self, k: Keyword) -> (r: bool)
        requires
            self.wf(),
        ensures
            r == (self.cursor() < self.tokens().len() && self.tokens()[self.cursor() as int].kind
                == TokenKind::Keyword(k)),
    {
        if self.pos >= self.tokens.len() {
            return false;
        }
        match &self.tokens[self.pos].kind {
            TokenKind::Keyword(x) => *x == k,
            _ => false,
        }
    }

    fn at_symbol(&self, s: Symbol) -> (r: bool)
        requires
            self.wf(),
        ensures
            r == (self.cursor() < self.tokens().len() && self.tokens()[self.cursor() as int].kind
                == TokenKind::Symbol(s)),
    {
        match self.peek_symbol() {
            Some(x) => x == s,
            None => false,
        }
    }

    fn advance(&mut self)
        requires
            old(self).wf(),
            old(self).cursor() < old(self).tokens().len(),
        ensures
            final(self).wf(),
            final(self).tokens() == old(self).tokens(),
            final(self).cursor() == old(self).cursor() + 1,
    {
        let n = self.tokens.len();
        assert(self.pos < n);
        self.pos = self.pos + 1;
    }

    /// Consumes the symbol `s`, or fails at the next token.
    fn expect_symbol(&mut self, s: Symbol) -> (r: Result<(), ParseError>)
        requires
            old(self).wf(),
        ensures
            final(self).wf(),
            final(self).tokens() == old(self).tokens(),
            r is Ok <==> old(self).cursor() < old(self).tokens().len() && old(self).tokens()[old(
                self,
            ).cursor() as int].kind == TokenKind::Symbol(s),
            r is Ok ==> final(self).cursor() == old(self).cursor() + 1,
            r matches Err(e) ==> e == (ParseError {
                expected: Expected::Symbol(s),
                position: position_at(old(self).tokens(), old(self).cursor() as int),
            }),
            r is Ok ==> sp_expect(old(self).tokens(), old(self).cursor() as int, s) == Ok::<int, ParseError>(
                final(self).cursor() as int,
            ),
            r matches Err(x) ==> sp_expect(old(self).tokens(), old(self).cursor() as int, s) == Err::<
                int,
                ParseError,
            >(x),
    {
        if self.at_symbol(s) {
            self.advance();
            Ok(())
        } else {
            Err(ParseError { expected: Expected::Symbol(s), position: self.position() })
        }
    }

    /// Consumes an identifier and returns its text, or fails at the next token.
    fn expect_ident(&mut self) -> (r: Result<String, ParseError>)
        requires
            old(self).wf(),
        ensures
            final(self).wf(),
            final(self).tokens() == old(self).tokens(),
            match r {
                Ok(name) => old(self).cursor() < old(self).tokens().len() && final(self).cursor()
                    == old(self).cursor() + 1 && (old(self).tokens()[old(self).cursor() as int].kind matches TokenKind::Ident(n)
                    && n@ == name@),
                Err(e) => e == (ParseError {
                    expected: Expected::Identifier,
                    position: position_at(old(self).tokens(), old(self).cursor() as int),
                }),
            },
            r matches Ok(n) ==> sp_ident(old(self).tokens(), old(self).cursor() as int) == Ok::<
                (Seq<char>, int),
                ParseError,
            >((n@, final(self).cursor() as int)),
            r matches Err(x) ==> sp_ident(old(self).tokens(), old(self).cursor() as int) == Err::<
                (Seq<char>, int),
                ParseError,
            >(x),
    {
        if self.pos < self.tokens.len() {
            match &self.tokens[self.pos].kind {
                TokenKind::Ident(n) => {
                    let name = n.clone();
                    self.advance();
                    return Ok(name);
                },
                _ => {},
            }
        }
        Err(ParseError { expected: Expected::Identifier, position: self.position() })
    }

    /// Parses one expression.
    pub fn parse_expr(&mut self) -> (r: Result<Box<Expr>, ParseError>)
        requires
            old(self).wf(),
        ensures
            final(self).wf(),
            final(self).tokens() == old(self).tokens(),
            r is Ok ==> final(self).cursor() > old(self).cursor(),
            r matches Err(e) ==> fails_from(e, old(self).tokens(), old(self).cursor() as int),
            parsed(r, sp_assign(old(self).tokens(), old(self).cursor() as int), final(self).cursor()),
        decreases self.tokens().len() - self.cursor(), 8int,
    {
        self.parse_assign()
    }

    /// assignment := binary [ ('=' | '+=' | '-=') assignment ]
    fn parse_assign(&mut self) -> (r: Result<Box<Expr>, ParseError>)
        requires
            old(self).wf(),
        ensures
            final(self).wf(),
            final(self).tokens() == old(self).tokens(),
            r is Ok ==> final(self).cursor() > old(self).cursor(),
            r matches Err(e) ==> fails_from(e, old(self).tokens(), old(self).cursor() as int),
            parsed(r, sp_assign(old(self).tokens(), old(self).cursor() as int), final(self).cursor()),
        decreases self.tokens@.len() - self.pos, 7int,
    {
        let lhs = match self.parse_binary(0) {
            Ok(e) => e,
            Err(e) => {
                return Err(e);
            },
        };
        let op = match self.peek_symbol() {
            Some(Symbol::Assign) => BinaryOpType::Assign,
            Some(Symbol::PlusAssign) => BinaryOpType::Inc,
            Some(Symbol::MinusAssign) => BinaryOpType::Dec,
            _ => {
                return Ok(lhs);
            },
        };
        let position = self.position();
        self.advance();
        match self.parse_assign() {
            Ok(rhs) => Ok(Box::new(Expr::BinaryOp { op, lhs, rhs, position })),
            Err(e) => Err(e),
        }
    }

    /// binary(level) := operand (op(level) operand)*, left-associative,
    /// where the operand is binary(level + 1), or a unary expression past
    /// the multiplicative level.
    fn parse_binary(&mut self, level: usize) -> (r: Result<Box<Expr>, ParseError>)
        requires
            old(self).wf(),
            level <= 3,
        ensures
            final(self).wf(),
            final(self).tokens() == old(self).tokens(),
            r is Ok ==> final(self).cursor() > old(self).cursor(),
            r matches Err(e) ==> fails_from(e, old(self).tokens(), old(self).cursor() as int),
            parsed(r, sp_binary(old(self).tokens(), old(self).cursor() as int, level as nat), final(self).cursor()),
        decreases self.tokens@.len() - self.pos, 6 - level,
    {
        let ghost start = self.pos;
        let first = if level < 3 {
            self.parse_binary(level + 1)
        } else {
            self.parse_unary()
        };
        let mut lhs = match first {
            Ok(e) => e,
            Err(e) => {
                return Err(e);
            },
        };
        loop
            invariant
                self.wf(),
                self.tokens() == old(self).tokens(),
                self.pos > start,
                start == old(self).cursor(),
                level <= 3,
                sp_binary(self.tokens(), start as int, level as nat) == sp_binary_rest(
                    self.tokens(),
                    self.pos as int,
                    level as nat,
                    expr_view(*lhs),
                ),
            decreases self.tokens@.len() - self.pos,
        {
            let op = match self.peek_symbol() {
                Some(sym) => infix_op_of(level, sym),
                None => None,
            };
            let op = match op {
                Some(op) => op,
                None => {
                    return Ok(lhs);
                },
            };
            let position = self.position();
            let ghost j = self.pos as int;
            let ghost acc = expr_view(*lhs);
            self.advance();
            let next = if level < 3 {
                self.parse_binary(level + 1)
            } else {
                self.parse_unary()
            };
            proof {
                let t = self.tokens();
                assert(symbol_at(t, j) is Some);
                assert(infix_op(level as nat, symbol_at(t, j)->0) == Some(op));
                assert(sp_operand(t, j + 1, level as nat) == if level < 3 {
                    sp_binary(t, j + 1, (level + 1) as nat)
                } else {
                    sp_unary(t, j + 1)
                });
            }
            match next {
                Ok(rhs) => {
                    proof {
                        let t = self.tokens();
                        let k = self.pos as int;
                        assert(sp_operand(t, j + 1, level as nat) == Ok::<(ExprV, int), ParseError>((expr_view(*rhs), k)));
                        assert(k > j);
                        assert(sp_binary_rest(t, j, level as nat, acc) == sp_binary_rest(
                            t,
                            k,
                            level as nat,
                            ExprV::Binary(op, Box::new(acc), Box::new(expr_view(*rhs)), position_at(t, j)),
                        ));
                    }
                    lhs = Box::new(Expr::BinaryOp { op, lhs, rhs, position });
                },
                Err(e) => {
                    return Err(e);
                },
            }
        }
    }

    /// unary := ('+' | '-') unary | primary
    fn parse_unary(&mut self) -> (r: Result<Box<Expr>, ParseError>)
        requires
            old(self).wf(),
        ensures
            final(self).wf(),
            final(self).tokens() == old(self).tokens(),
            r is Ok ==> final(self).cursor() > old(self).cursor(),
            r matches Err(e) ==> fails_from(e, old(self).tokens(), old(self).cursor() as int),
            parsed(r, sp_unary(old(self).tokens(), old(self).cursor() as int), final(self).cursor()),
        decreases self.tokens@.len() - self.pos, 2int,
    {
        let op = match self.peek_symbol() {
            Some(Symbol::Plus) => UnaryOpType::Plus,
            Some(Symbol::Minus) => UnaryOpType::Minus,
            _ => {
                return self.parse_primary();
            },
        };
        let position = self.position();
        self.advance();
        match self.parse_unary() {
            Ok(rhs) => Ok(Box::new(Expr::UnaryOp { op, rhs, position })),
            Err(e) => Err(e),
        }
    }

    /// primary := number | identifier | identifier '(' arguments ')' | '(' expression ')'
    fn parse_primary(&mut self) -> (r: Result<Box<Expr>, ParseError>)
        requires
            old(self).wf(),
        ensures
            final(self).wf(),
            final(self).tokens() == old(self).tokens(),
            r is Ok ==> final(self).cursor() > old(self).cursor(),
            r matches Err(e) ==> fails_from(e, old(self).tokens(), old(self).cursor() as int),
            parsed(r, sp_primary(old(self).tokens(), old(self).cursor() as int), final(self).cursor()),
        decreases self.tokens@.len() - self.pos, 1int,
    {
        let position = self.position();
        if self.pos < self.tokens.len() {
            match &self.tokens[self.pos].kind {
                TokenKind::Number(v) => {
                    let value = *v;
                    self.advance();
                    return Ok(Box::new(Expr::Number { value, position }));
                },
                TokenKind::Ident(n) => {
                    let name = n.clone();
                    self.advance();
                    if self.at_symbol(Symbol::LParen) {
                        return match self.parse_call_args() {
                            Ok(args) => Ok(Box::new(Expr::Call { name, args, position })),
                            Err(e) => Err(e),
                        };
                    }
                    return Ok(Box::new(Expr::Id { name, position }));
                },
                TokenKind::Symbol(Symbol::LParen) => {
                    self.advance();
                    let e = match self.parse_expr() {
                        Ok(e) => e,
                        Err(e) => {
                            return Err(e);
                        },
                    };
                    return match self.expect_symbol(Symbol::RParen) {
                        Ok(()) => Ok(e),
                        Err(err) => Err(err),
                    };
                },
                _ => {},
            }
        }
        Err(ParseError { expected: Expected::Expression, position })
    }

    /// arguments := '(' [ expression (',' expression)* ] ')'
    fn parse_call_args(&mut self) -> (r: Result<Vec<Box<Expr>>, ParseError>)
        requires
            old(self).wf(),
            old(self).cursor() < old(self).tokens().len(),
        ensures
            final(self).wf(),
            final(self).tokens() == old(self).tokens(),
            r is Ok ==> final(self).cursor() > old(self).cursor(),
            r matches Err(e) ==> fails_from(e, old(self).tokens(), old(self).cursor() as int),
            match r {
                Ok(args) => sp_call_args(old(self).tokens(), old(self).cursor() as int) == Ok::<
                    (Seq<ExprV>, int),
                    ParseError,
                >((args_view(args@, 0), final(self).cursor() as int)),
                Err(x) => sp_call_args(old(self).tokens(), old(self).cursor() as int) == Err::<
                    (Seq<ExprV>, int),
                    ParseError,
                >(x),
            },
        decreases self.tokens@.len() - self.pos, 0int,
    {
        let mut args: Vec<Box<Expr>> = Vec::new();
        let ghost start = self.pos;
        self.advance();
        if self.at_symbol(Symbol::RParen) {
            self.advance();
            return Ok(args);
        }
        loop
            invariant
                self.wf(),
                self.tokens() == old(self).tokens(),
                self.pos > start,
                start == old(self).cursor(),
                sp_call_args(self.tokens(), start as int) == sp_args_rest(
                    self.tokens(),
                    self.pos as int,
                    args_view(args@, 0),
                ),
            decreases self.tokens@.len() - self.pos,
        {
            let a = match self.parse_expr() {
                Ok(a) => a,
                Err(e) => {
                    return Err(e);
                },
            };
            proof {
                lemma_args_view_push(args@, a, 0);
            }
            args.push(a);
            if self.at_symbol(Symbol::Comma) {
                self.advance();
            } else {
                return match self.expect_symbol(Symbol::RParen) {
                    Ok(()) => Ok(args),
                    Err(e) => Err(e),
                };
            }
        }
    }

    /// Parses the whole token sequence into a module: statements up to the end.
    pub fn parse(&mut self) -> (r: Result<Module, ParseError>)
        requires
            old(self).wf(),
        ensures
            final(self).wf(),
            final(self).tokens() == old(self).tokens(),
            r is Ok ==> is_end_at(final(self).tokens(), final(self).cursor() as int),
            r matches Err(e) ==> fails_from(e, old(self).tokens(), old(self).cursor() as int),
            match r {
                Ok(m) => sp_module(old(self).tokens(), old(self).cursor() as int, seq![]) == Ok::<
                    Seq<StmtV>,
                    ParseError,
                >(stmts_view(m.stmt_list@, 0)),
                Err(x) => sp_module(old(self).tokens(), old(self).cursor() as int, seq![]) == Err::<
                    Seq<StmtV>,
                    ParseError,
                >(x),
            },
    {
        let mut module = Module::new();
        let ghost start = self.pos;
        assert(stmts_view(module.stmt_list@, 0) =~= Seq::<StmtV>::empty());
        while !self.at_end()
            invariant
                self.wf(),
                self.tokens() == old(self).tokens(),
                self.pos >= start,
                start == old(self).cursor(),
                sp_module(self.tokens(), start as int, seq![]) == sp_module(
                    self.tokens(),
                    self.pos as int,
                    stmts_view(module.stmt_list@, 0),
                ),
            decreases self.tokens@.len() - self.pos,
        {
            match self.parse_stmt() {
                Ok(stmt) => {
                    proof {
                        lemma_stmts_view_push(module.stmt_list@, stmt, 0);
                    }
                    module.add_stmt(stmt);
                },
                Err(e) => {
                    return Err(e);
                },
            }
        }
        Ok(module)
    }

    /// Parses one statement: a function declaration, `if`, `for`, `return`,
    /// or an expression followed by `;`.
    pub fn parse_stmt(&mut self) -> (r: Result<Box<Stmt>, ParseError>)
        requires
            old(self).wf(),
        ensures
            final(self).wf(),
            final(self).tokens() == old(self).tokens(),
            r is Ok ==> final(self).cursor() > old(self).cursor(),
            r matches Err(e) ==> fails_from(e, old(self).tokens(), old(self).cursor() as int),
            stmt_parsed(r, sp_stmt(old(self).tokens(), old(self).cursor() as int), final(self).cursor()),
        decreases self.tokens().len() - self.cursor(), 1int,
    {
        if self.at_keyword(Keyword::Int) {
            self.parse_fn()
        } else if self.at_keyword(Keyword::If) {
            self.advance();
            if let Err(e) = self.expect_symbol(Symbol::LParen) {
                return Err(e);
            }
            let cond = match self.parse_expr() {
                Ok(e) => e,
                Err(e) => {
                    return Err(e);
                },
            };
            if let Err(e) = self.expect_symbol(Symbol::RParen) {
                return Err(e);
            }
            let true_body = match self.parse_block() {
                Ok(b) => b,
                Err(e) => {
                    return Err(e);
                },
            };
            let false_body = if self.at_keyword(Keyword::Else) {
                self.advance();
                match self.parse_block() {
                    Ok(b) => Some(b),
                    Err(e) => {
                        return Err(e);
                    },
                }
            } else {
                None
            };
            Ok(Box::new(Stmt::IfStmt { cond, true_body, false_body }))
        } else if self.at_keyword(Keyword::For) {
            self.advance();
            if let Err(e) = self.expect_symbol(Symbol::LParen) {
                return Err(e);
            }
            let prologue = match self.parse_opt_expr(Symbol::Semicolon) {
                Ok(e) => e,
                Err(e) => {
                    return Err(e);
                },
            };
            let cond = match self.parse_opt_expr(Symbol::Semicolon) {
                Ok(e) => e,
                Err(e) => {
                    return Err(e);
                },
            };
            let epilogue = match self.parse_opt_expr(Symbol::RParen) {
                Ok(e) => e,
                Err(e) => {
                    return Err(e);
                },
            };
            let body = match self.parse_block() {
                Ok(b) => b,
                Err(e) => {
                    return Err(e);
                },
            };
            Ok(Box::new(Stmt::ForStmt { cond, prologue, epilogue, body }))
        } else if self.at_keyword(Keyword::Return) {
            self.advance();
            let expr = match self.parse_opt_expr(Symbol::Semicolon) {
                Ok(e) => e,
                Err(e) => {
                    return Err(e);
                },
            };
            Ok(Box::new(Stmt::ReturnStmt { expr }))
        } else {
            let expr = match self.parse_expr() {
                Ok(e) => e,
                Err(e) => {
                    return Err(e);
                },
            };
            match self.expect_symbol(Symbol::Semicolon) {
                Ok(()) => Ok(Box::new(Stmt::ExprStmt { expr })),
                Err(e) => Err(e),
            }
        }
    }

    /// An optional expression followed by the symbol `end`, which is consumed.
    fn parse_opt_expr(&mut self, end: Symbol) -> (r: Result<Option<Box<Expr>>, ParseError>)
        requires
            old(self).wf(),
        ensures
            final(self).wf(),
            final(self).tokens() == old(self).tokens(),
            r is Ok ==> final(self).cursor() > old(self).cursor(),
            r matches Err(e) ==> fails_from(e, old(self).tokens(), old(self).cursor() as int),
            match r {
                Ok(o) => sp_opt_expr(old(self).tokens(), old(self).cursor() as int, end) == Ok::<
                    (Option<ExprV>, int),
                    ParseError,
                >((opt_view(o), final(self).cursor() as int)),
                Err(x) => sp_opt_expr(old(self).tokens(), old(self).cursor() as int, end) == Err::<
                    (Option<ExprV>, int),
                    ParseError,
                >(x),
            },
    {
        if self.at_symbol(end) {
            self.advance();
            return Ok(None);
        }
        let e = match self.parse_expr() {
            Ok(e) => e,
            Err(e) => {
                return Err(e);
            },
        };
        match self.expect_symbol(end) {
            Ok(()) => Ok(Some(e)),
            Err(e) => Err(e),
        }
    }

    /// function := 'int' name '(' [ 'int' name (',' 'int' name)* ] ')' block
    fn parse_fn(&mut self) -> (r: Result<Box<Stmt>, ParseError>)
        requires
            old(self).wf(),
            old(self).cursor() < old(self).tokens().len(),
        ensures
            final(self).wf(),
            final(self).tokens() == old(self).tokens(),
            r is Ok ==> final(self).cursor() > old(self).cursor(),
            r matches Err(e) ==> fails_from(e, old(self).tokens(), old(self).cursor() as int),
            kw_at(old(self).tokens(), old(self).cursor() as int, Keyword::Int) ==> stmt_parsed(
                r,
                sp_fn(old(self).tokens(), old(self).cursor() as int),
                final(self).cursor(),
            ),
        decreases self.tokens().len() - self.cursor(), 0int,
    {
        let ghost start = self.pos;
        self.advance();
        let name = match self.expect_ident() {
            Ok(n) => n,
            Err(e) => {
                return Err(e);
            },
        };
        let ghost j1 = self.pos as int;
        if let Err(e) = self.expect_symbol(Symbol::LParen) {
            return Err(e);
        }
        let mut args = ArgList::new();
        let ghost j2 = self.pos as int;
        assert(arg_names(args.container@) =~= Seq::<Seq<char>>::empty());
        if !self.at_symbol(Symbol::RParen) {
            loop
                invariant_except_break
                    sp_params(self.tokens(), j2, seq![]) == sp_params(
                        self.tokens(),
                        self.pos as int,
                        arg_names(args.container@),
                    ),
                invariant
                    self.wf(),
                    self.tokens() == old(self).tokens(),
                    self.pos > start,
                    start == old(self).cursor(),
                    sp_ident(self.tokens(), start + 1) == Ok::<(Seq<char>, int), ParseError>((name@, j1)),
                    sp_expect(self.tokens(), j1, Symbol::LParen) == Ok::<int, ParseError>(j2),
                    !sym_at(self.tokens(), j2, Symbol::RParen),
                ensures
                    self.wf(),
                    self.tokens() == old(self).tokens(),
                    self.pos > start,
                    sp_params(self.tokens(), j2, seq![]) == Ok::<(Seq<Seq<char>>, int), ParseError>(
                        (arg_names(args.container@), self.pos as int),
                    ),
                decreases self.tokens@.len() - self.pos,
            {
                if !self.at_keyword(Keyword::Int) {
                    return Err(ParseError { expected: Expected::TypeName, position: self.position() });
                }
                self.advance();
                let arg_name = match self.expect_ident() {
                    Ok(n) => n,
                    Err(e) => {
                        return Err(e);
                    },
                };
                let ghost before = args.container@;
                args.push(Arg { name: arg_name, typ: Type::Int });
                assert(arg_names(args.container@) =~= arg_names(before).push(arg_name@));
                if self.at_symbol(Symbol::Comma) {
                    self.advance();
                } else {
                    break;
                }
            }
        }
        if let Err(e) = self.expect_symbol(Symbol::RParen) {
            return Err(e);
        }
        match self.parse_block() {
            Ok(body) => Ok(Box::new(Stmt::FnStmt { name, args, body, ret_type: Type::Int })),
            Err(e) => Err(e),
        }
    }

    /// block := '{' statement* '}'
    fn parse_block(&mut self) -> (r: Result<Vec<Box<Stmt>>, ParseError>)
        requires
            old(self).wf(),
        ensures
            final(self).wf(),
            final(self).tokens() == old(self).tokens(),
            r is Ok ==> final(self).cursor() > old(self).cursor(),
            r matches Err(e) ==> fails_from(e, old(self).tokens(), old(self).cursor() as int),
            match r {
                Ok(b) => sp_block(old(self).tokens(), old(self).cursor() as int) == Ok::<
                    (Seq<StmtV>, int),
                    ParseError,
                >((stmts_view(b@, 0), final(self).cursor() as int)),
                Err(x) => sp_block(old(self).tokens(), old(self).cursor() as int) == Err::<
                    (Seq<StmtV>, int),
                    ParseError,
                >(x),
            },
        decreases self.tokens().len() - self.cursor(), 0int,
    {
        let ghost start = self.pos;
        if let Err(e) = self.expect_symbol(Symbol::LBrace) {
            return Err(e);
        }
        let mut body: Vec<Box<Stmt>> = Vec::new();
        assert(stmts_view(body@, 0) =~= Seq::<StmtV>::empty());
        while !self.at_symbol(Symbol::RBrace) && !self.at_end()
            invariant
                self.wf(),
                self.tokens() == old(self).tokens(),
                self.pos > start,
                start == old(self).cursor(),
                sp_block(self.tokens(), start as int) == sp_block_rest(
                    self.tokens(),
                    self.pos as int,
                    stmts_view(body@, 0),
                ),
            decreases self.tokens@.len() - self.pos,
        {
            match self.parse_stmt() {
                Ok(stmt) => {
                    proof {
                        lemma_stmts_view_push(body@, stmt, 0);
                    }
                    body.push(stmt);
                },
                Err(e) => {
                    return Err(e);
                },
            }
        }
        match self.expect_symbol(Symbol::RBrace) {
            Ok(()) => Ok(body),
            Err(e) => Err(e),
        }
    }
}

/// A syntax error found at the token at `from` or after it.
pub open spec fn fails_from(e: ParseError, tokens: Seq<Token>, from: int) -> bool {
    exists|k: int| from <= k && #[trigger] position_at(tokens, k) == e.position
}

} // verus!
