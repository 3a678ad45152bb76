use mycc::ast::{Arg, ArgList, BinaryOpType, Expr, Module, Position, Stmt, Type, UnaryOpType};
use mycc::codegen::{Codegen, GenError};
use mycc::env::Env;
use mycc::text::decimal_string;

fn pos() -> Position {
    Position { line: 1, column: 1 }
}

fn id(name: &str) -> Box<Expr> {
    Box::new(Expr::Id { name: name.to_string(), position: pos() })
}

fn num(value: u64) -> Box<Expr> {
    Box::new(Expr::Number { value, position: pos() })
}

fn bin(op: BinaryOpType, lhs: Box<Expr>, rhs: Box<Expr>) -> Box<Expr> {
    Box::new(Expr::BinaryOp { op, lhs, rhs, position: pos() })
}

fn expr_stmt(e: Box<Expr>) -> Box<Stmt> {
    Box::new(Stmt::ExprStmt { expr: e })
}

fn func(name: &str, params: &[&str], body: Vec<Box<Stmt>>) -> Box<Stmt> {
    let mut args = ArgList::new();
    for p in params {
        args.push(Arg { name: p.to_string(), typ: Type::Int });
    }
    Box::new(Stmt::FnStmt { name: name.to_string(), args, body, ret_type: Type::Int })
}

fn module_of(stmts: Vec<Box<Stmt>>) -> Box<Module> {
    let mut m = Module::new();
    for s in stmts {
        m.add_stmt(s);
    }
    Box::new(m)
}

fn compile(stmts: Vec<Box<Stmt>>) -> Result<Vec<String>, GenError> {
    let mut g = Codegen::new();
    g.run(module_of(stmts))?;
    Ok(g.code_list)
}

const PROLOGUE: [&str; 10] = [
    ".intel_syntax noprefix\n",
    "\n",
    ".text\n",
    ".section .rodata\n",
    ".LC0:\n",
    "  .string \"%d\\n\"\n",
    ".text\n",
    "\n",
    ".globl main\n",
    "\n",
];

fn body_lines(code: &[String], name: &str) -> Vec<String> {
    let head = format!("{}:\n", name);
    let start = code.iter().position(|l| *l == head).unwrap() + 4;
    let end = code.iter().position(|l| *l == format!("  # function '{}' end\n", name)).unwrap();
    code[start..end].to_vec()
}

#[test]
fn empty_module_gives_prologue_only() {
    let code = compile(vec![]).unwrap();
    assert_eq!(code, PROLOGUE.iter().map(|s| s.to_string()).collect::<Vec<_>>());
}

#[test]
fn function_frame_and_return_value() {
    let code = compile(vec![func("main", &[], vec![expr_stmt(num(42))])]).unwrap();
    let expected: Vec<&str> = PROLOGUE
        .iter()
        .copied()
        .chain([
            "main:\n",
            "  push rbp\n",
            "  mov rbp, rsp\n",
            "  # function 'main' begin\n",
            "  push 42\n",
            "  # function 'main' end\n",
            "  pop rax\n",
            "  mov rsp, rbp\n",
            "  pop rbp\n",
            "  ret\n",
        ])
        .collect();
    assert_eq!(code, expected);
}

#[test]
fn slot_offsets_follow_first_allocation() {
    let mut env = Env::new();
    assert_eq!(env.allocate("a"), 0);
    assert_eq!(env.allocate("b"), 8);
    assert_eq!(env.get_offset("a"), Some(0));
    assert_eq!(env.allocate("c"), 16);
    assert_eq!(env.allocate("a"), 0);
    assert_eq!(env.allocate("b"), 8);
    assert_eq!(env.get_offset("c"), Some(16));
    assert_eq!(env.get_offset("d"), None);
    assert_eq!(env.len(), 3);
}

#[test]
fn params_take_lowest_slots_then_locals() {
    let body = vec![
        expr_stmt(bin(BinaryOpType::Assign, id("c"), bin(BinaryOpType::Add, id("a"), id("b")))),
        expr_stmt(id("a")),
        expr_stmt(id("b")),
        expr_stmt(id("a")),
        Box::new(Stmt::ReturnStmt { expr: Some(id("c")) }),
    ];
    let code = compile(vec![func("f", &["a", "b"], body)]).unwrap();
    let lines = body_lines(&code, "f");
    let addr = |off: &str| vec!["  mov rax, rbp\n".to_string(), format!("  sub rax, {}\n", off), "  push rax\n".to_string()];
    assert_eq!(lines[0..3].to_vec(), addr("16"));
    assert_eq!(lines[3..6].to_vec(), addr("0"));
    assert_eq!(lines[9..12].to_vec(), addr("8"));
    let subs: Vec<&String> = lines.iter().filter(|l| l.starts_with("  sub rax, ")).collect();
    assert_eq!(subs, vec!["  sub rax, 16\n", "  sub rax, 0\n", "  sub rax, 8\n", "  sub rax, 0\n", "  sub rax, 8\n", "  sub rax, 0\n", "  sub rax, 16\n"]);
}

#[test]
fn generating_twice_gives_identical_lines() {
    let make = || {
        vec![func(
            "main",
            &["x"],
            vec![
                Box::new(Stmt::IfStmt { cond: id("x"), true_body: vec![expr_stmt(num(1))], false_body: Some(vec![expr_stmt(num(2))]) }),
                Box::new(Stmt::ForStmt { cond: None, prologue: None, epilogue: None, body: vec![] }),
            ],
        )]
    };
    let a = compile(make()).unwrap();
    let b = compile(make()).unwrap();
    assert_eq!(a, b);
}

#[test]
fn sibling_ifs_use_distinct_labels() {
    let body = vec![
        Box::new(Stmt::IfStmt { cond: num(1), true_body: vec![], false_body: None }),
        Box::new(Stmt::IfStmt { cond: num(0), true_body: vec![], false_body: None }),
    ];
    let code = compile(vec![func("main", &[], body)]).unwrap();
    let lines = body_lines(&code, "main");
    assert_eq!(
        lines,
        vec![
            "  push 1\n", "  pop rax\n", "  cmp rax, 0\n", "  je .Lend_0\n", ".Lend_0:\n",
            "  push 0\n", "  pop rax\n", "  cmp rax, 0\n", "  je .Lend_1\n", ".Lend_1:\n",
        ]
    );
}

#[test]
fn if_nested_in_for_gets_its_own_label() {
    let inner = Box::new(Stmt::IfStmt { cond: id("i"), true_body: vec![], false_body: None });
    let body = vec![Box::new(Stmt::ForStmt {
        prologue: Some(bin(BinaryOpType::Assign, id("i"), num(0))),
        cond: Some(bin(BinaryOpType::Lt, id("i"), num(3))),
        epilogue: Some(bin(BinaryOpType::Inc, id("i"), num(1))),
        body: vec![inner],
    })];
    let code = compile(vec![func("main", &[], body)]).unwrap();
    let lines = body_lines(&code, "main");
    let labels: Vec<&String> = lines.iter().filter(|l| l.starts_with(".L") || l.contains(" .L")).collect();
    assert_eq!(
        labels,
        vec![
            ".Lfor_begin_0:\n",
            "  je .Lfor_end_0\n",
            "  je .Lend_1\n",
            ".Lend_1:\n",
            "  jmp .Lfor_begin_0\n",
            ".Lfor_end_0:\n",
        ]
    );
}

#[test]
fn if_else_control_flow_shape() {
    let body = vec![Box::new(Stmt::IfStmt {
        cond: num(7),
        true_body: vec![expr_stmt(num(1))],
        false_body: Some(vec![expr_stmt(num(2))]),
    })];
    let code = compile(vec![func("main", &[], body)]).unwrap();
    assert_eq!(
        body_lines(&code, "main"),
        vec![
            "  push 7\n",
            "  pop rax\n",
            "  cmp rax, 0\n",
            "  je .Lelse_0\n",
            "  push 1\n",
            "  jmp .Lend_0\n",
            ".Lelse_0:\n",
            "  push 2\n",
            ".Lend_0:\n",
        ]
    );
}

#[test]
fn for_without_condition_has_no_test() {
    let body = vec![Box::new(Stmt::ForStmt { cond: None, prologue: None, epilogue: None, body: vec![expr_stmt(num(5))] })];
    let code = compile(vec![func("main", &[], body)]).unwrap();
    assert_eq!(
        body_lines(&code, "main"),
        vec![".Lfor_begin_0:\n", "  push 5\n", "  jmp .Lfor_begin_0\n", ".Lfor_end_0:\n"]
    );
}

#[test]
fn top_level_expression_is_rejected() {
    assert_eq!(compile(vec![expr_stmt(num(1))]), Err(GenError::NonFunctionAtTopLevel));
}

#[test]
fn increment_of_unassigned_variable_is_rejected() {
    let body = vec![expr_stmt(bin(BinaryOpType::Inc, id("x"), num(1)))];
    assert_eq!(compile(vec![func("main", &[], body)]), Err(GenError::UnboundVariable));
}

#[test]
fn read_of_unassigned_variable_is_rejected() {
    let body = vec![expr_stmt(id("y"))];
    assert_eq!(compile(vec![func("main", &[], body)]), Err(GenError::UnboundVariable));
}

#[test]
fn non_identifier_lvalue_is_rejected() {
    let body = vec![expr_stmt(bin(BinaryOpType::Assign, num(1), num(2)))];
    assert_eq!(compile(vec![func("main", &[], body)]), Err(GenError::InvalidLvalue));
}

#[test]
fn nested_function_is_rejected() {
    let body = vec![func("inner", &[], vec![])];
    assert_eq!(compile(vec![func("main", &[], body)]), Err(GenError::NestedFunction));
}

#[test]
fn call_with_more_than_six_arguments_keeps_the_rest_on_the_stack() {
    let args = (1..=7).map(num).collect();
    let body = vec![expr_stmt(Box::new(Expr::Call { name: "g".to_string(), args, position: pos() }))];
    let code = compile(vec![func("main", &[], body)]).unwrap();
    assert_eq!(
        body_lines(&code, "main"),
        vec![
            "  push 1\n", "  push 2\n", "  push 3\n", "  push 4\n", "  push 5\n", "  push 6\n", "  push 7\n",
            "  mov rdi, [rsp + 48]\n", "  mov rsi, [rsp + 40]\n", "  mov rdx, [rsp + 32]\n",
            "  mov rcx, [rsp + 24]\n", "  mov r8, [rsp + 16]\n", "  mov r9, [rsp + 8]\n",
            "  call g\n", "  add rsp, 56\n", "  push rax\n",
        ]
    );
}

#[test]
fn call_passes_arguments_in_registers() {
    let body = vec![expr_stmt(Box::new(Expr::Call { name: "add".to_string(), args: vec![num(1), num(2)], position: pos() }))];
    let code = compile(vec![func("main", &[], body)]).unwrap();
    assert_eq!(
        body_lines(&code, "main"),
        vec!["  push 1\n", "  push 2\n", "  pop rsi\n", "  pop rdi\n", "  call add\n", "  push rax\n"]
    );
}

#[test]
fn increment_pushes_the_right_operand() {
    // `x += y` yields y, not the updated x.
    let body = vec![
        expr_stmt(bin(BinaryOpType::Assign, id("x"), num(1))),
        expr_stmt(bin(BinaryOpType::Dec, id("x"), num(3))),
    ];
    let code = compile(vec![func("main", &[], body)]).unwrap();
    let lines = body_lines(&code, "main");
    assert_eq!(
        lines[8..].to_vec(),
        vec![
            "  mov rax, rbp\n", "  sub rax, 0\n", "  push rax\n", "  push 3\n", "  pop rdi\n", "  pop rax\n",
            "  mov rcx, [rax]\n", "  sub rcx, rdi\n", "  mov [rax], rcx\n", "  push rdi\n",
        ]
    );
}

#[test]
fn assignment_stores_and_pushes_value() {
    let body = vec![expr_stmt(bin(BinaryOpType::Assign, id("x"), num(9)))];
    let code = compile(vec![func("main", &[], body)]).unwrap();
    assert_eq!(
        body_lines(&code, "main"),
        vec!["  mov rax, rbp\n", "  sub rax, 0\n", "  push rax\n", "  push 9\n", "  pop rdi\n", "  pop rax\n", "  mov [rax], rdi\n", "  push rdi\n"]
    );
}

#[test]
fn arithmetic_and_comparison_lowering() {
    let cases = [
        (BinaryOpType::Add, vec!["  add rax, rdi\n"]),
        (BinaryOpType::Sub, vec!["  sub rax, rdi\n"]),
        (BinaryOpType::Mul, vec!["  imul rax, rdi\n"]),
        (BinaryOpType::Div, vec!["  cqo\n", "  idiv rdi\n"]),
        (BinaryOpType::Eq, vec!["  cmp rax, rdi\n", "  sete al\n", "  movzb rax, al\n"]),
        (BinaryOpType::Ne, vec!["  cmp rax, rdi\n", "  setne al\n", "  movzb rax, al\n"]),
        (BinaryOpType::Lt, vec!["  cmp rax, rdi\n", "  setl al\n", "  movzb rax, al\n"]),
        (BinaryOpType::Le, vec!["  cmp rax, rdi\n", "  setle al\n", "  movzb rax, al\n"]),
        (BinaryOpType::Gt, vec!["  cmp rax, rdi\n", "  setg al\n", "  movzb rax, al\n"]),
        (BinaryOpType::Ge, vec!["  cmp rax, rdi\n", "  setge al\n", "  movzb rax, al\n"]),
    ];
    for (op, tail) in cases {
        let code = compile(vec![func("main", &[], vec![expr_stmt(bin(op, num(6), num(3)))])]).unwrap();
        let mut expected = vec!["  push 6\n", "  push 3\n", "  pop rdi\n", "  pop rax\n"];
        expected.extend(tail);
        expected.push("  push rax\n");
        assert_eq!(body_lines(&code, "main"), expected);
    }
}

#[test]
fn unary_minus_and_plus() {
    let neg = Box::new(Expr::UnaryOp { op: UnaryOpType::Minus, rhs: num(4), position: pos() });
    let plus = Box::new(Expr::UnaryOp { op: UnaryOpType::Plus, rhs: num(4), position: pos() });
    let code = compile(vec![func("main", &[], vec![expr_stmt(neg), expr_stmt(plus)])]).unwrap();
    assert_eq!(
        body_lines(&code, "main"),
        vec![
            "  push 4\n", "  pop rdi\n", "  mov rax, 0\n", "  sub rax, rdi\n", "  push rax\n",
            "  push 4\n", "  pop rdi\n", "  mov rax, 0\n", "  add rax, rdi\n", "  push rax\n",
        ]
    );
}

#[test]
fn bare_return_yields_zero() {
    let code = compile(vec![func("main", &[], vec![Box::new(Stmt::ReturnStmt { expr: None })])]).unwrap();
    assert_eq!(
        body_lines(&code, "main"),
        vec!["  push 0\n", "  pop rax\n", "  mov rsp, rbp\n", "  pop rbp\n", "  ret\n"]
    );
}

#[test]
fn labels_continue_across_functions() {
    let f = |n: &str| func(n, &[], vec![Box::new(Stmt::IfStmt { cond: num(1), true_body: vec![], false_body: None })]);
    let code = compile(vec![f("a"), f("b")]).unwrap();
    assert_eq!(body_lines(&code, "b")[3], "  je .Lend_1\n");
}

#[test]
fn decimal_rendering() {
    assert_eq!(decimal_string(0), "0");
    assert_eq!(decimal_string(7), "7");
    assert_eq!(decimal_string(1200), "1200");
    assert_eq!(decimal_string(u64::MAX), "18446744073709551615");
}

#[test]
fn large_literal_is_pushed_verbatim() {
    let code = compile(vec![func("main", &[], vec![expr_stmt(num(u64::MAX))])]).unwrap();
    assert_eq!(body_lines(&code, "main"), vec!["  push 18446744073709551615\n"]);
}

#[test]
fn positions_do_not_change_the_output() {
    let build = |line: usize| {
        let p = Position { line, column: line * 3 };
        let body = vec![
            expr_stmt(Box::new(Expr::BinaryOp {
                op: BinaryOpType::Assign,
                lhs: Box::new(Expr::Id { name: "v".to_string(), position: p }),
                rhs: Box::new(Expr::Number { value: 4, position: p }),
                position: p,
            })),
            Box::new(Stmt::IfStmt { cond: Box::new(Expr::Id { name: "v".to_string(), position: p }), true_body: vec![], false_body: None }),
        ];
        vec![func("main", &[], body)]
    };
    assert_eq!(compile(build(1)).unwrap(), compile(build(9)).unwrap());
}

#[test]
fn section_directives_are_unindented() {
    let code = compile(vec![]).unwrap();
    for l in code.iter().filter(|l| l.trim_start().starts_with(".text") || l.starts_with(".globl") || l.starts_with(".section")) {
        assert!(!l.starts_with(' '), "{:?}", l);
    }
}
