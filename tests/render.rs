use mycc::ast::{Arg, ArgList, BinaryOpType, Expr, Module, Position, Stmt, Type, UnaryOpType};
use mycc::render::stmt_list_to_string;

fn at(line: usize, column: usize) -> Position {
    Position { line, column }
}

fn id(name: &str, p: Position) -> Box<Expr> {
    Box::new(Expr::Id { name: name.to_string(), position: p })
}

fn num(value: u64, p: Position) -> Box<Expr> {
    Box::new(Expr::Number { value, position: p })
}

#[test]
fn expression_rendering_shows_nesting() {
    let e = Expr::BinaryOp {
        op: BinaryOpType::Assign,
        lhs: id("x", at(1, 1)),
        rhs: Box::new(Expr::BinaryOp {
            op: BinaryOpType::Add,
            lhs: num(1, at(1, 5)),
            rhs: Box::new(Expr::BinaryOp { op: BinaryOpType::Mul, lhs: num(2, at(1, 9)), rhs: num(3, at(1, 13)), position: at(1, 11) }),
            position: at(1, 7),
        }),
        position: at(1, 3),
    };
    assert_eq!(
        e.to_simple_string(),
        "Assign(1:3){Id(1:1){'x'}, Add(1:7){Num(1:5){1}, Mul(1:11){Num(1:9){2}, Num(1:13){3}}}}"
    );
}

#[test]
fn unary_and_call_rendering() {
    let neg = Expr::UnaryOp { op: UnaryOpType::Minus, rhs: num(4, at(2, 2)), position: at(2, 1) };
    assert_eq!(neg.to_simple_string(), "Minus(2:1){Num(2:2){4}}");
    let call = Expr::Call { name: "f".to_string(), args: vec![num(1, at(3, 3)), id("y", at(3, 6))], position: at(3, 1) };
    assert_eq!(call.to_simple_string(), "Call(3:1){'f',\n  0: Num(3:3){1}\n  1: Id(3:6){'y'}\n}");
}

#[test]
fn operator_and_type_names() {
    assert_eq!(BinaryOpType::Ge.to_simple_string(), "Ge");
    assert_eq!(BinaryOpType::Inc.to_simple_string(), "Inc");
    assert_eq!(UnaryOpType::Plus.to_simple_string(), "Plus");
    assert_eq!(Type::Int.to_simple_string(), "int");
    assert_eq!(at(12, 40).to_simple_string(), "(12:40)");
}

#[test]
fn statement_and_module_rendering() {
    let mut args = ArgList::new();
    assert_eq!(args.to_simple_string(), "[]");
    args.push(Arg { name: "a".to_string(), typ: Type::Int });
    args.push(Arg { name: "b".to_string(), typ: Type::Int });
    assert_eq!(args.to_simple_string(), "['a', 'b']");
    let body = vec![
        Box::new(Stmt::IfStmt {
            cond: id("a", at(1, 4)),
            true_body: vec![Box::new(Stmt::ReturnStmt { expr: Some(id("b", at(1, 14))) })],
            false_body: Some(vec![Box::new(Stmt::ReturnStmt { expr: None })]),
        }),
        Box::new(Stmt::ForStmt { cond: Some(num(1, at(2, 7))), prologue: None, epilogue: None, body: vec![] }),
    ];
    let f = Stmt::FnStmt { name: "f".to_string(), args, body, ret_type: Type::Int };
    let expected_fn = "Fn(f, ['a', 'b']) -> int {\n  0: If(Id(1:4){'a'}) {\n  0: Return(Id(1:14){'b'})\n} Else {\n  0: Return()\n}\n  1: for(\nNum(2:7){1},) {}}";
    assert_eq!(f.to_simple_string(), expected_fn);
    let mut m = Module::new();
    m.add_stmt(Box::new(Stmt::ExprStmt { expr: num(5, at(9, 9)) }));
    assert_eq!(m.to_simple_string(), "Module {\n  0: Stmt(Num(9:9){5})\n}");
    assert_eq!(stmt_list_to_string(&m.stmt_list, 0), "  0: Stmt(Num(9:9){5})\n");
}
