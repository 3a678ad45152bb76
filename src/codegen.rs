//! The code generator: a single pass over a module that emits assembly
//! lines for a stack machine. The spec functions here state the exact
//! lines each construct produces; the generator is proved to emit them.
use vstd::prelude::*;
use crate::ast::{Arg, ArgList, BinaryOpType, Expr, Module, Stmt, UnaryOpType};
use crate::env::{alloc_names, slot_limit, slot_of, str_views, Env};
use crate::text::{decimal, decimal_string, line, spaces_string};

verus! {

/// Why a syntax tree cannot be compiled.
#[derive(Debug, Clone, Copy, PartialEq, Eq, Structural)]
pub enum GenError {
    /// A top-level statement is not a function declaration.
    NonFunctionAtTopLevel,
    /// A function declaration stands inside a function body.
    NestedFunction,
    /// An expression other than an identifier stands where an address is needed.
    InvalidLvalue,
    /// `+=` or `-=`, or a read, names a variable that was never assigned.
    UnboundVariable,
    /// The slot table or the label counter is exhausted.
    LimitExceeded,
}

/// Lines emitted by a construct, and the slot table after it.
pub type ExprOut = Result<(Seq<Seq<char>>, Seq<Seq<char>>), GenError>;

/// Lines emitted by a statement, the slot table and the label counter after it.
pub type StmtOut = Result<(Seq<Seq<char>>, Seq<Seq<char>>, nat), GenError>;

/// One line at the given indentation.
pub open spec fn ins(ind: nat, cmd: Seq<char>) -> Seq<Seq<char>> {
    seq![line(ind, cmd)]
}

/// The name of a jump target: `.L<kind>_<index>`.
pub open spec fn label_text(kind: Seq<char>, index: nat) -> Seq<char> {
    ".L"@ + kind + "_"@ + decimal(index)
}

/// The unindented line that places a jump target.
pub open spec fn label_line(kind: Seq<char>, index: nat) -> Seq<Seq<char>> {
    ins(0, label_text(kind, index) + ":"@)
}

/// The register that carries the call argument at `i`.
pub open spec fn reg_name(i: nat) -> Seq<char> {
    if i == 0 {
        "rdi"@
    } else if i == 1 {
        "rsi"@
    } else if i == 2 {
        "rdx"@
    } else if i == 3 {
        "rcx"@
    } else if i == 4 {
        "r8"@
    } else {
        "r9"@
    }
}

/// The number of argument registers.
pub open spec fn max_call_args() -> nat {
    6
}

/// Pops the top `n` stack values into the first `n` argument registers, last first.
pub open spec fn pop_args(ind: nat, n: nat) -> Seq<Seq<char>>
    decreases n,
{
    if n == 0 {
        seq![]
    } else {
        ins(ind, "pop "@ + reg_name((n - 1) as nat)) + pop_args(ind, (n - 1) as nat)
    }
}

/// Copies the first six of `n > 6` pushed arguments into the argument
/// registers, from `i` on; argument `i` lies `8 * (n - 1 - i)` bytes above
/// the stack top.
pub open spec fn load_args(ind: nat, n: nat, i: nat) -> Seq<Seq<char>>
    decreases max_call_args() - i,
{
    if i >= max_call_args() {
        seq![]
    } else {
        ins(ind, "mov "@ + reg_name(i) + ", [rsp + "@ + decimal((8 * (n - 1 - i)) as nat) + "]"@)
            + load_args(ind, n, i + 1)
    }
}

/// The calling convention, once the `n` arguments are pushed left to right:
/// the first six travel in `rdi`, `rsi`, `rdx`, `rcx`, `r8`, `r9`; with more
/// than six, the rest stay on the stack in push order and the caller drops
/// all `n` pushed values after the call. The result in `rax` is pushed.
pub open spec fn call_code(ind: nat, name: Seq<char>, n: nat) -> Seq<Seq<char>> {
    if n <= max_call_args() {
        pop_args(ind, n) + ins(ind, "call "@ + name) + ins(ind, "push rax"@)
    } else {
        load_args(ind, n, 0) + ins(ind, "call "@ + name) + ins(ind, "add rsp, "@ + decimal(8 * n))
            + ins(ind, "push rax"@)
    }
}

/// Pushes the address of the slot at byte offset `off`.
pub open spec fn address_code(ind: nat, off: nat) -> Seq<Seq<char>> {
    ins(ind, "mov rax, rbp"@) + ins(ind, "sub rax, "@ + decimal(off)) + ins(ind, "push rax"@)
}

/// Resolves an identifier to its slot address; `alloc_ok` lets an unbound
/// name be given a fresh slot.
pub open spec fn lvalue_code(e: Expr, ind: nat, names: Seq<Seq<char>>, alloc_ok: bool) -> ExprOut {
    match e {
        Expr::Id { name, .. } => match slot_of(names, name@) {
            Some(i) => Ok((address_code(ind, 8 * i), names)),
            None => if !alloc_ok {
                Err(GenError::UnboundVariable)
            } else if names.len() >= slot_limit() {
                Err(GenError::LimitExceeded)
            } else {
                Ok((address_code(ind, 8 * names.len()), names.push(name@)))
            },
        },
        _ => Err(GenError::InvalidLvalue),
    }
}

/// The lines that combine `rax` (left) and `rdi` (right) into `rax`.
pub open spec fn binop_code(ind: nat, op: BinaryOpType) -> Seq<Seq<char>> {
    match op {
        BinaryOpType::Add => ins(ind, "add rax, rdi"@),
        BinaryOpType::Sub => ins(ind, "sub rax, rdi"@),
        BinaryOpType::Mul => ins(ind, "imul rax, rdi"@),
        BinaryOpType::Div => ins(ind, "cqo"@) + ins(ind, "idiv rdi"@),
        _ => ins(ind, "cmp rax, rdi"@) + ins(ind, set_cc(op)) + ins(ind, "movzb rax, al"@),
    }
}

/// The `set<cc>` instruction that materializes a comparison.
pub open spec fn set_cc(op: BinaryOpType) -> Seq<char> {
    match op {
        BinaryOpType::Eq => "sete al"@,
        BinaryOpType::Ne => "setne al"@,
        BinaryOpType::Lt => "setl al"@,
        BinaryOpType::Le => "setle al"@,
        BinaryOpType::Gt => "setg al"@,
        _ => "setge al"@,
    }
}

/// Appends `tail` to the lines of a successful result.
pub open spec fn then_emit(r: ExprOut, tail: Seq<Seq<char>>) -> ExprOut {
    match r {
        Ok((c, n)) => Ok((c + tail, n)),
        Err(x) => Err(x),
    }
}

/// The lines that push the value of `e`, and the slot table after them.
pub open spec fn expr_code(e: Expr, ind: nat, names: Seq<Seq<char>>) -> ExprOut
    decreases e, 0int,
{
    match e {
        Expr::Id { .. } => then_emit(
            lvalue_code(e, ind, names, false),
            ins(ind, "pop rax"@) + ins(ind, "mov rax, [rax]"@) + ins(ind, "push rax"@),
        ),
        Expr::Number { value, .. } => Ok((ins(ind, "push "@ + decimal(value as nat)), names)),
        Expr::Call { name, args, .. } => if args.len() >= slot_limit() {
            Err(GenError::LimitExceeded)
        } else {
            then_emit(args_code(args@, 0, ind, names), call_code(ind, name@, args.len() as nat))
        },
        Expr::UnaryOp { op, rhs, .. } => then_emit(
            expr_code(*rhs, ind, names),
            ins(ind, "pop rdi"@) + ins(ind, "mov rax, 0"@) + ins(
                ind,
                if op == UnaryOpType::Minus { "sub rax, rdi"@ } else { "add rax, rdi"@ },
            ) + ins(ind, "push rax"@),
        ),
        Expr::BinaryOp { op, lhs, rhs, .. } => {
            let first = if op == BinaryOpType::Assign {
                lvalue_code(*lhs, ind, names, true)
            } else if op == BinaryOpType::Inc || op == BinaryOpType::Dec {
                lvalue_code(*lhs, ind, names, false)
            } else {
                expr_code(*lhs, ind, names)
            };
            match first {
                Err(x) => Err(x),
                Ok((c1, n1)) => match expr_code(*rhs, ind, n1) {
                    Err(x) => Err(x),
                    Ok((c2, n2)) => Ok((c1 + c2 + ins(ind, "pop rdi"@) + ins(ind, "pop rax"@)
                        + binop_tail(ind, op), n2)),
                },
            }
        },
    }
}

/// What follows the two operands of a binary operator, once they are
/// popped into `rax` (left) and `rdi` (right).
pub open spec fn binop_tail(ind: nat, op: BinaryOpType) -> Seq<Seq<char>> {
    if op == BinaryOpType::Assign {
        ins(ind, "mov [rax], rdi"@) + ins(ind, "push rdi"@)
    } else if op == BinaryOpType::Inc || op == BinaryOpType::Dec {
        ins(ind, "mov rcx, [rax]"@) + ins(
            ind,
            if op == BinaryOpType::Inc { "add rcx, rdi"@ } else { "sub rcx, rdi"@ },
        ) + ins(ind, "mov [rax], rcx"@) + ins(ind, "push rdi"@)
    } else {
        binop_code(ind, op) + ins(ind, "push rax"@)
    }
}

/// The lines that push the call arguments from position `i` on, left to right.
pub open spec fn args_code(args: Seq<Box<Expr>>, i: int, ind: nat, names: Seq<Seq<char>>) -> ExprOut
    decreases args, args.len() - i,
{
    if i < 0 || i >= args.len() {
        Ok((seq![], names))
    } else {
        match expr_code(*args[i], ind, names) {
            Err(x) => Err(x),
            Ok((c1, n1)) => match args_code(args, i + 1, ind, n1) {
                Err(x) => Err(x),
                Ok((c2, n2)) => Ok((c1 + c2, n2)),
            },
        }
    }
}

/// Pops the condition value and compares it with zero.
pub open spec fn test_code(ind: nat) -> Seq<Seq<char>> {
    ins(ind, "pop rax"@) + ins(ind, "cmp rax, 0"@)
}

/// Tears the frame down and returns `rax` to the caller.
pub open spec fn leave_code(ind: nat) -> Seq<Seq<char>> {
    ins(ind, "mov rsp, rbp"@) + ins(ind, "pop rbp"@) + ins(ind, "ret"@)
}

/// Evaluates an optional expression: nothing when it is absent.
pub open spec fn opt_expr_code(e: Option<Box<Expr>>, ind: nat, names: Seq<Seq<char>>) -> ExprOut {
    match e {
        Some(x) => expr_code(*x, ind, names),
        None => Ok((seq![], names)),
    }
}

/// Adds the lines `pre` before and `post` after a statement's output.
pub open spec fn wrap(r: StmtOut, pre: Seq<Seq<char>>, post: Seq<Seq<char>>) -> StmtOut {
    match r {
        Ok((c, n, l)) => Ok((pre + c + post, n, l)),
        Err(x) => Err(x),
    }
}

/// The lines of one statement inside a function body, with `names` the slot
/// table and `label` the next free label index.
pub open spec fn stmt_code(s: Stmt, ind: nat, names: Seq<Seq<char>>, label: nat) -> StmtOut
    decreases s, 0int, 0int,
{
    match s {
        Stmt::ExprStmt { expr } => match expr_code(*expr, ind, names) {
            Ok((c, n)) => Ok((c, n, label)),
            Err(x) => Err(x),
        },
        Stmt::IfStmt { cond, true_body, false_body } => if label >= usize::MAX {
            Err(GenError::LimitExceeded)
        } else {
            match expr_code(*cond, ind, names) {
                Err(x) => Err(x),
                Ok((c0, n0)) => match false_body {
                    Some(fb) => match block_code(true_body@, 0, ind, n0, label + 1) {
                        Err(x) => Err(x),
                        Ok((c1, n1, l1)) => wrap(
                            block_code(fb@, 0, ind, n1, l1),
                            c0 + test_code(ind) + ins(ind, "je "@ + label_text("else"@, label)) + c1
                                + ins(ind, "jmp "@ + label_text("end"@, label)) + label_line(
                                "else"@,
                                label,
                            ),
                            label_line("end"@, label),
                        ),
                    },
                    None => wrap(
                        block_code(true_body@, 0, ind, n0, label + 1),
                        c0 + test_code(ind) + ins(ind, "je "@ + label_text("end"@, label)),
                        label_line("end"@, label),
                    ),
                },
            }
        },
        Stmt::ForStmt { cond, prologue, epilogue, body } => if label >= usize::MAX {
            Err(GenError::LimitExceeded)
        } else {
            match opt_expr_code(prologue, ind, names) {
                Err(x) => Err(x),
                Ok((c0, n0)) => match opt_expr_code(cond, ind, n0) {
                    Err(x) => Err(x),
                    Ok((c1, n1)) => {
                        let check = if cond is Some {
                            c1 + test_code(ind) + ins(ind, "je "@ + label_text("for_end"@, label))
                        } else {
                            seq![]
                        };
                        match block_code(body@, 0, ind, n1, label + 1) {
                            Err(x) => Err(x),
                            Ok((c2, n2, l2)) => match opt_expr_code(epilogue, ind, n2) {
                                Err(x) => Err(x),
                                Ok((c3, n3)) => Ok((c0 + label_line("for_begin"@, label) + check
                                    + c2 + c3 + ins(ind, "jmp "@ + label_text("for_begin"@, label))
                                    + label_line("for_end"@, label), n3, l2)),
                            },
                        }
                    },
                },
            }
        },
        Stmt::ReturnStmt { expr } => {
            let value = match expr {
                Some(x) => expr_code(*x, ind, names),
                None => Ok((ins(ind, "push 0"@), names)),
            };
            match value {
                Err(x) => Err(x),
                Ok((c, n)) => Ok((c + ins(ind, "pop rax"@) + leave_code(ind), n, label)),
            }
        },
        Stmt::FnStmt { .. } => Err(GenError::NestedFunction),
    }
}

/// The lines of the statements of `b` from position `i` on.
pub open spec fn block_code(b: Seq<Box<Stmt>>, i: int, ind: nat, names: Seq<Seq<char>>, label: nat) -> StmtOut
    decreases b, 0int, b.len() - i,
{
    if i < 0 || i >= b.len() {
        Ok((seq![], names, label))
    } else {
        match stmt_code(*b[i], ind, names, label) {
            Err(x) => Err(x),
            Ok((c1, n1, l1)) => match block_code(b, i + 1, ind, n1, l1) {
                Err(x) => Err(x),
                Ok((c2, n2, l2)) => Ok((c1 + c2, n2, l2)),
            },
        }
    }
}

/// The fixed lines that open every generated file.
pub open spec fn module_prologue() -> Seq<Seq<char>> {
    ins(0, ".intel_syntax noprefix"@) + ins(0, ""@) + ins(0, ".text"@) + ins(0, ".section .rodata"@)
        + ins(0, ".LC0:"@) + ins(2, ".string \"%d\\n\""@) + ins(0, ".text"@) + ins(0, ""@) + ins(
        0,
        ".globl main"@,
    ) + ins(0, ""@)
}

/// The slot table of a function once its parameters are bound, in order.
pub open spec fn param_names(params: Seq<Arg>) -> Seq<Seq<char>>
    decreases params.len(),
{
    if params.len() == 0 {
        seq![]
    } else {
        alloc_names(param_names(params.drop_last()), params.last().name@)
    }
}

/// The lines that open a function's frame.
pub open spec fn fn_prologue(name: Seq<char>) -> Seq<Seq<char>> {
    ins(0, name + ":"@) + ins(2, "push rbp"@) + ins(2, "mov rbp, rsp"@) + ins(
        2,
        "# function '"@ + name + "' begin"@,
    )
}

/// The lines that close a function: its value is the top of the stack.
pub open spec fn fn_epilogue(name: Seq<char>) -> Seq<Seq<char>> {
    ins(2, "# function '"@ + name + "' end"@) + ins(2, "pop rax"@) + leave_code(2)
}

/// The lines of a function declaration, and the label counter after it.
pub open spec fn fn_code(name: Seq<char>, params: Seq<Arg>, body: Seq<Box<Stmt>>, label: nat) -> Result<
    (Seq<Seq<char>>, nat),
    GenError,
> {
    if params.len() >= slot_limit() {
        Err(GenError::LimitExceeded)
    } else {
        match block_code(body, 0, 2, param_names(params), label) {
            Err(x) => Err(x),
            Ok((c, n, l)) => Ok((fn_prologue(name) + c + fn_epilogue(name), l)),
        }
    }
}

/// The lines of the top-level statements from position `i` on; each must be
/// a function declaration.
pub open spec fn fns_code(stmts: Seq<Box<Stmt>>, i: int, label: nat) -> Result<
    (Seq<Seq<char>>, nat),
    GenError,
>
    decreases stmts.len() - i,
{
    if i < 0 || i >= stmts.len() {
        Ok((seq![], label))
    } else {
        match *stmts[i] {
            Stmt::FnStmt { name, args, body, .. } => match fn_code(name@, args.container@, body@, label) {
                Err(x) => Err(x),
                Ok((c1, l1)) => match fns_code(stmts, i + 1, l1) {
                    Err(x) => Err(x),
                    Ok((c2, l2)) => Ok((c1 + c2, l2)),
                },
            },
            _ => Err(GenError::NonFunctionAtTopLevel),
        }
    }
}

/// The whole output for a module, starting from label index `label`, and
/// the label counter after it.
pub open spec fn module_code(m: Module, label: nat) -> Result<(Seq<Seq<char>>, nat), GenError> {
    match fns_code(m.stmt_list@, 0, label) {
        Err(x) => Err(x),
        Ok((c, l)) => Ok((module_prologue() + c, l)),
    }
}

/// What a generator call that emits `out` leaves behind.
pub open spec fn expr_emitted(
    r: Result<(), GenError>,
    out: ExprOut,
    before: Seq<Seq<char>>,
    after: Seq<Seq<char>>,
    names_after: Seq<Seq<char>>,
) -> bool {
    match out {
        Ok((c, n)) => r is Ok && after == before + c && names_after == n,
        Err(x) => r == Err::<(), GenError>(x),
    }
}

/// What a generator call for statements that emits `out` leaves behind.
pub open spec fn stmt_emitted(
    r: Result<(), GenError>,
    out: StmtOut,
    before: Seq<Seq<char>>,
    after: Seq<Seq<char>>,
    names_after: Seq<Seq<char>>,
    label_after: nat,
) -> bool {
    match out {
        Ok((c, n, l)) => r is Ok && after == before + c && names_after == n && label_after == l,
        Err(x) => r == Err::<(), GenError>(x),
    }
}

fn reg_str(i: usize) -> (r: &'static str)
    requires
        i < max_call_args(),
    ensures
        r@ == reg_name(i as nat),
{
    if i == 0 {
        "rdi"
    } else if i == 1 {
        "rsi"
    } else if i == 2 {
        "rdx"
    } else if i == 3 {
        "rcx"
    } else if i == 4 {
        "r8"
    } else {
        "r9"
    }
}

fn set_cc_str(op: BinaryOpType) -> (r: &'static str)
    ensures
        r@ == set_cc(op),
{
    match op {
        BinaryOpType::Eq => "sete al",
        BinaryOpType::Ne => "setne al",
        BinaryOpType::Lt => "setl al",
        BinaryOpType::Le => "setle al",
        BinaryOpType::Gt => "setg al",
        _ => "setge al",
    }
}

fn concat_str(a: &str, b: &str) -> (r: String)
    ensures
        r@ == a@ + b@,
{
    let mut s = String::from_str(a);
    s.append(b);
    s
}

/// The generator: the lines emitted so far, the current indentation and
/// the next free label index.
pub struct Codegen {
    pub code_list: Vec<String>,
    pub indent: usize,
    pub label_index: usize,
}

impl Codegen {
    /// The lines emitted so far.
    pub open spec fn lines(&self) -> Seq<Seq<char>> {
        str_views(self.code_list@)
    }

    /// The next free label index.
    pub open spec fn label(&self) -> nat {
        self.label_index as nat
    }

    /// The current indentation.
    pub open spec fn indent(&self) -> nat {
        self.indent as nat
    }

    /// Between functions the generator writes at the left margin.
    pub open spec fn wf(&self) -> bool {
        self.indent == 0
    }

    pub fn new() -> (r: Codegen)
        ensures
            r.wf(),
            r.lines() == Seq::<Seq<char>>::empty(),
            r.label() == 0,
    {
        let r = Codegen { code_list: Vec::new(), indent: 0, label_index: 0 };
        assert(r.lines() =~= Seq::<Seq<char>>::empty());
        r
    }

    /// Compiles `module`, appending its lines; label indices go on from
    /// where the previous run left them.
    pub fn run(&mut self, module: Box<Module>) -> (r: Result<(), GenError>)
        requires
            old(self).wf(),
        ensures
            final(self).wf(),
            run_outcome(*old(self), *final(self), *module, r),
    {
        self.gen_module(&module)
    }

    fn gen_module(&mut self, module: &Module) -> (r: Result<(), GenError>)
        requires
            old(self).wf(),
        ensures
            final(self).wf(),
            match module_code(*module, old(self).label()) {
                Ok((c, l)) => r is Ok && final(self).lines() == old(self).lines() + c
                    && final(self).label() == l,
                Err(x) => r == Err::<(), GenError>(x),
            },
    {
        let ghost start = self.lines();
        self.gen_module_prolouge();
        let ghost mid = self.lines();
        let r = self.gen_fns(&module.stmt_list, 0);
        proof {
            if let Ok((c, l)) = fns_code(module.stmt_list@, 0, old(self).label()) {
                assert(self.lines() =~= start + (module_prologue() + c));
            }
        }
        r
    }

    fn gen_fns(&mut self, stmts: &Vec<Box<Stmt>>, i: usize) -> (r: Result<(), GenError>)
        requires
            old(self).wf(),
            i <= stmts@.len(),
        ensures
            final(self).wf(),
            match fns_code(stmts@, i as int, old(self).label()) {
                Ok((c, l)) => r is Ok && final(self).lines() == old(self).lines() + c
                    && final(self).label() == l,
                Err(x) => r == Err::<(), GenError>(x),
            },
        decreases stmts@.len() - i,
    {
        if i >= stmts.len() {
            assert(self.lines() =~= self.lines() + Seq::<Seq<char>>::empty());
            return Ok(());
        }
        let ghost start = self.lines();
        match &*stmts[i] {
            Stmt::FnStmt { name, args, body, .. } => {
                let r1 = self.gen_fn(name, args, body);
                if let Err(x) = r1 {
                    return Err(x);
                }
                let ghost mid = self.lines();
                let r2 = self.gen_fns(stmts, i + 1);
                proof {
                    if let Ok((c1, l1)) = fn_code(name@, args.container@, body@, old(self).label()) {
                        if let Ok((c2, l2)) = fns_code(stmts@, i + 1, l1) {
                            assert(self.lines() =~= start + (c1 + c2));
                        }
                    }
                }
                r2
            },
            _ => Err(GenError::NonFunctionAtTopLevel),
        }
    }

    fn gen_module_prolouge(&mut self)
        requires
            old(self).wf(),
        ensures
            final(self).wf(),
            final(self).label() == old(self).label(),
            final(self).lines() == old(self).lines() + module_prologue(),
    {
        let ghost start = self.lines();
        self.set(".intel_syntax noprefix");
        self.set_newline();
        self.set(".text");
        self.set(".section .rodata");
        self.set(".LC0:");
        self.inc_indent();
        self.set(".string \"%d\\n\"");
        self.dec_indent();
        self.set(".text");
        self.set_newline();
        self.set(".globl main");
        self.set_newline();
        assert(self.lines() =~= start + module_prologue());
    }

    fn gen_fn(&mut self, name: &String, args: &ArgList, body: &Vec<Box<Stmt>>) -> (r: Result<(), GenError>)
        requires
            old(self).wf(),
        ensures
            final(self).wf(),
            match fn_code(name@, args.container@, body@, old(self).label()) {
                Ok((c, l)) => r is Ok && final(self).lines() == old(self).lines() + c
                    && final(self).label() == l,
                Err(x) => r == Err::<(), GenError>(x),
            },
    {
        let n = args.container.len();
        if n >= usize::MAX / 8 {
            return Err(GenError::LimitExceeded);
        }
        let mut env = Env::new();
        let mut i: usize = 0;
        while i < n
            invariant
                n == args.container@.len(),
                n < slot_limit(),
                i <= n,
                env.names() == param_names(args.container@.subrange(0, i as int)),
                env.names().len() <= i,
            decreases n - i,
        {
            proof {
                let pre = args.container@.subrange(0, i + 1);
                assert(pre.drop_last() =~= args.container@.subrange(0, i as int));
            }
            env.allocate(args.container[i].name.as_str());
            i = i + 1;
        }
        assert(args.container@.subrange(0, n as int) =~= args.container@);
        let ghost start = self.lines();
        self.gen_fn_prolouge(name.as_str());
        let r = self.gen_block(body, 0, &mut env);
        if let Err(x) = r {
            self.dec_indent();
            return Err(x);
        }
        self.gen_fn_epilouge(name.as_str());
        proof {
            if let Ok((c, nn, l)) = block_code(body@, 0, 2, param_names(args.container@), old(self).label()) {
                assert(self.lines() =~= start + (fn_prologue(name@) + c + fn_epilogue(name@)));
            }
        }
        Ok(())
    }

    fn gen_fn_prolouge(&mut self, name: &str)
        requires
            old(self).wf(),
        ensures
            final(self).indent() == 2,
            final(self).label() == old(self).label(),
            final(self).lines() == old(self).lines() + fn_prologue(name@),
    {
        let ghost start = self.lines();
        let head = concat_str(name, ":");
        self.set(head.as_str());
        self.inc_indent();
        self.set("push rbp");
        self.set("mov rbp, rsp");
        let note = concat_str(concat_str("# function '", name).as_str(), "' begin");
        self.set(note.as_str());
        assert(self.lines() =~= start + fn_prologue(name@));
    }

    fn gen_fn_epilouge(&mut self, name: &str)
        requires
            old(self).indent() == 2,
        ensures
            final(self).wf(),
            final(self).label() == old(self).label(),
            final(self).lines() == old(self).lines() + fn_epilogue(name@),
    {
        let ghost start = self.lines();
        let note = concat_str(concat_str("# function '", name).as_str(), "' end");
        self.set(note.as_str());
        self.set("pop rax");
        self.set("mov rsp, rbp");
        self.set("pop rbp");
        self.set("ret");
        self.dec_indent();
        assert(self.lines() =~= start + fn_epilogue(name@));
    }

    /// Appends one line at the current indentation.
    fn set(&mut self, cmd: &str)
        ensures
            final(self).indent() == old(self).indent(),
            final(self).label() == old(self).label(),
            final(self).lines() == old(self).lines() + ins(old(self).indent(), cmd@),
    {
        let mut s = spaces_string(self.indent);
        s.append(cmd);
        s.append("\n");
        let ghost pre = self.code_list@;
        self.code_list.push(s);
        assert(str_views(self.code_list@) =~= str_views(pre) + ins(old(self).indent(), cmd@));
    }

    /// Appends the unindented line that places `label`.
    fn set_label(&mut self, label: &str)
        ensures
            final(self).indent() == old(self).indent(),
            final(self).label() == old(self).label(),
            final(self).lines() == old(self).lines() + ins(0, label@ + ":"@),
    {
        let s = concat_str(label, ":\n");
        proof {
            reveal_strlit(":\n");
            reveal_strlit(":");
            reveal_strlit("\n");
        }
        let ghost pre = self.code_list@;
        assert(line(0, label@ + ":"@) =~= s@);
        self.code_list.push(s);
        assert(str_views(self.code_list@) =~= str_views(pre) + ins(0, label@ + ":"@));
    }

    /// The name of the jump target `kind` numbered `index`.
    fn make_label(&self, kind: &str, index: usize) -> (r: String)
        ensures
            r@ == label_text(kind@, index as nat),
    {
        let mut s = concat_str(".L", kind);
        s.append("_");
        let d = decimal_string(index as u64);
        s.append(d.as_str());
        s
    }

    fn set_newline(&mut self)
        ensures
            final(self).indent() == old(self).indent(),
            final(self).label() == old(self).label(),
            final(self).lines() == old(self).lines() + ins(old(self).indent(), ""@),
    {
        self.set("");
    }

    fn inc_indent(&mut self)
        requires
            old(self).indent() + 2 <= usize::MAX,
        ensures
            final(self).indent() == old(self).indent() + 2,
            final(self).label() == old(self).label(),
            final(self).lines() == old(self).lines(),
    {
        self.indent = self.indent + 2;
    }

    fn dec_indent(&mut self)
        requires
            old(self).indent() >= 2,
        ensures
            final(self).indent() == old(self).indent() - 2,
            final(self).label() == old(self).label(),
            final(self).lines() == old(self).lines(),
    {
        self.indent = self.indent - 2;
    }

    fn gen_block(&mut self, body: &Vec<Box<Stmt>>, i: usize, env: &mut Env) -> (r: Result<(), GenError>)
        requires
            i <= body@.len(),
            old(self).indent() == 2,
            old(env).names().len() <= slot_limit(),
        ensures
            final(self).indent() == 2,
            final(env).names().len() <= slot_limit(),
            stmt_emitted(
                r,
                block_code(body@, i as int, 2, old(env).names(), old(self).label()),
                old(self).lines(),
                final(self).lines(),
                final(env).names(),
                final(self).label(),
            ),
        decreases body@, 0int, body@.len() - i,
    {
        if i >= body.len() {
            assert(self.lines() =~= self.lines() + Seq::<Seq<char>>::empty());
            return Ok(());
        }
        let ghost start = self.lines();
        let ghost names0 = env.names();
        let r1 = self.gen_stmt(&body[i], env);
        if let Err(x) = r1 {
            return Err(x);
        }
        let r2 = self.gen_block(body, i + 1, env);
        proof {
            if let Ok((c1, n1, l1)) = stmt_code(*body@[i as int], 2, names0, old(self).label()) {
                if let Ok((c2, n2, l2)) = block_code(body@, i + 1, 2, n1, l1) {
                    assert(self.lines() =~= start + (c1 + c2));
                }
            }
        }
        r2
    }

    fn gen_stmt(&mut self, s: &Stmt, env: &mut Env) -> (r: Result<(), GenError>)
        requires
            old(self).indent() == 2,
            old(env).names().len() <= slot_limit(),
        ensures
            final(self).indent() == 2,
            final(env).names().len() <= slot_limit(),
            stmt_emitted(
                r,
                stmt_code(*s, 2, old(env).names(), old(self).label()),
                old(self).lines(),
                final(self).lines(),
                final(env).names(),
                final(self).label(),
            ),
        decreases s, 1int, 0int,
    {
        match s {
            Stmt::ExprStmt { expr } => self.gen_expr(expr, env),
            Stmt::IfStmt { .. } => self.gen_if(s, env),
            Stmt::ForStmt { .. } => self.gen_for(s, env),
            Stmt::ReturnStmt { expr } => self.gen_return(expr, env),
            Stmt::FnStmt { .. } => Err(GenError::NestedFunction),
        }
    }

    fn gen_if(&mut self, s: &Stmt, env: &mut Env) -> (r: Result<(), GenError>)
        requires
            s is IfStmt,
            old(self).indent() == 2,
            old(env).names().len() <= slot_limit(),
        ensures
            final(self).indent() == 2,
            final(env).names().len() <= slot_limit(),
            stmt_emitted(
                r,
                stmt_code(*s, 2, old(env).names(), old(self).label()),
                old(self).lines(),
                final(self).lines(),
                final(env).names(),
                final(self).label(),
            ),
        decreases s, 0int, 0int,
    {
        let (cond, true_body, false_body) = match s {
            Stmt::IfStmt { cond, true_body, false_body } => (cond, true_body, false_body),
            _ => {
                return Err(GenError::NestedFunction);
            },
        };
        let l = self.label_index;
        if l == usize::MAX {
            return Err(GenError::LimitExceeded);
        }
        self.label_index = l + 1;
        let ghost start = self.lines();
        let ghost names0 = env.names();
        let r0 = self.gen_expr(cond, env);
        if let Err(x) = r0 {
            return Err(x);
        }
        let ghost after_cond = self.lines();
        self.set("pop rax");
        self.set("cmp rax, 0");
        let label_end = self.make_label("end", l);
        match false_body {
            Some(fb) => {
                let label_else = self.make_label("else", l);
                let je = concat_str("je ", label_else.as_str());
                self.set(je.as_str());
                let ghost before_true = self.lines();
                let ghost names1 = env.names();
                let r1 = self.gen_block(true_body, 0, env);
                if let Err(x) = r1 {
                    return Err(x);
                }
                let ghost after_true = self.lines();
                let ghost names2 = env.names();
                let ghost l2 = self.label();
                let jmp = concat_str("jmp ", label_end.as_str());
                self.set(jmp.as_str());
                self.set_label(label_else.as_str());
                let ghost before_false = self.lines();
                let r2 = self.gen_block(fb, 0, env);
                if let Err(x) = r2 {
                    return Err(x);
                }
                let ghost after_false = self.lines();
                self.set_label(label_end.as_str());
                proof {
                    let c0 = expr_code(**cond, 2, names0)->Ok_0.0;
                    let c1 = block_code(true_body@, 0, 2, names1, l as nat + 1)->Ok_0.0;
                    let c2 = block_code(fb@, 0, 2, names2, l2)->Ok_0.0;
                    assert(after_cond == start + c0);
                    assert(after_true == before_true + c1);
                    assert(after_false == before_false + c2);
                    assert(self.lines() =~= start + (c0 + test_code(2) + ins(
                        2,
                        "je "@ + label_text("else"@, l as nat),
                    ) + c1 + ins(2, "jmp "@ + label_text("end"@, l as nat)) + label_line(
                        "else"@,
                        l as nat,
                    ) + c2 + label_line("end"@, l as nat)));
                }
            },
            None => {
                let je = concat_str("je ", label_end.as_str());
                self.set(je.as_str());
                let ghost before_true = self.lines();
                let ghost names1 = env.names();
                let r1 = self.gen_block(true_body, 0, env);
                if let Err(x) = r1 {
                    return Err(x);
                }
                let ghost after_true = self.lines();
                self.set_label(label_end.as_str());
                proof {
                    let c0 = expr_code(**cond, 2, names0)->Ok_0.0;
                    let c1 = block_code(true_body@, 0, 2, names1, l as nat + 1)->Ok_0.0;
                    assert(after_cond == start + c0);
                    assert(after_true == before_true + c1);
                    assert(self.lines() =~= start + (c0 + test_code(2) + ins(
                        2,
                        "je "@ + label_text("end"@, l as nat),
                    ) + c1 + label_line("end"@, l as nat)));
                }
            },
        }
        Ok(())
    }

    #[verifier::rlimit(60)]
    fn gen_for(&mut self, s: &Stmt, env: &mut Env) -> (r: Result<(), GenError>)
        requires
            s is ForStmt,
            old(self).indent() == 2,
            old(env).names().len() <= slot_limit(),
        ensures
            final(self).indent() == 2,
            final(env).names().len() <= slot_limit(),
            stmt_emitted(
                r,
                stmt_code(*s, 2, old(env).names(), old(self).label()),
                old(self).lines(),
                final(self).lines(),
                final(env).names(),
                final(self).label(),
            ),
        decreases s, 0int, 0int,
    {
        let (cond, prologue, epilogue, body) = match s {
            Stmt::ForStmt { cond, prologue, epilogue, body } => (cond, prologue, epilogue, body),
            _ => {
                return Err(GenError::NestedFunction);
            },
        };
        let l = self.label_index;
        if l == usize::MAX {
            return Err(GenError::LimitExceeded);
        }
        self.label_index = l + 1;
        let ghost start = self.lines();
        let ghost names0 = env.names();
        let r0 = self.gen_opt_expr(prologue, env);
        if let Err(x) = r0 {
            return Err(x);
        }
        let ghost after_pro = self.lines();
        let ghost names1 = env.names();
        let label_begin = self.make_label("for_begin", l);
        let label_end = self.make_label("for_end", l);
        self.set_label(label_begin.as_str());
        let ghost before_cond = self.lines();
        let r1 = self.gen_opt_expr(cond, env);
        if let Err(x) = r1 {
            return Err(x);
        }
        if cond.is_some() {
            self.set("pop rax");
            self.set("cmp rax, 0");
            let je = concat_str("je ", label_end.as_str());
            self.set(je.as_str());
        }
        let ghost before_body = self.lines();
        let ghost names2 = env.names();
        let r2 = self.gen_block(body, 0, env);
        if let Err(x) = r2 {
            return Err(x);
        }
        let ghost after_body = self.lines();
        let ghost names3 = env.names();
        let ghost l3 = self.label();
        let r3 = self.gen_opt_expr(epilogue, env);
        if let Err(x) = r3 {
            return Err(x);
        }
        let ghost after_epi = self.lines();
        let jmp = concat_str("jmp ", label_begin.as_str());
        self.set(jmp.as_str());
        self.set_label(label_end.as_str());
        proof {
            let c0 = opt_expr_code(*prologue, 2, names0)->Ok_0.0;
            let c1 = opt_expr_code(*cond, 2, names1)->Ok_0.0;
            let check = if cond is Some {
                c1 + test_code(2) + ins(2, "je "@ + label_text("for_end"@, l as nat))
            } else {
                seq![]
            };
            let c2 = block_code(body@, 0, 2, names2, l as nat + 1)->Ok_0.0;
            let c3 = opt_expr_code(*epilogue, 2, names3)->Ok_0.0;
            assert(after_pro == start + c0);
            assert(before_body =~= before_cond + check);
            assert(after_body == before_body + c2);
            assert(after_epi == after_body + c3);
            assert(self.lines() =~= start + (c0 + label_line("for_begin"@, l as nat) + check + c2 + c3
                + ins(2, "jmp "@ + label_text("for_begin"@, l as nat)) + label_line(
                "for_end"@,
                l as nat,
            )));
        }
        Ok(())
    }

    fn gen_opt_expr(&mut self, e: &Option<Box<Expr>>, env: &mut Env) -> (r: Result<(), GenError>)
        requires
            old(env).names().len() <= slot_limit(),
        ensures
            final(self).indent() == old(self).indent(),
            final(self).label() == old(self).label(),
            final(env).names().len() <= slot_limit(),
            expr_emitted(
                r,
                opt_expr_code(*e, old(self).indent(), old(env).names()),
                old(self).lines(),
                final(self).lines(),
                final(env).names(),
            ),
    {
        match e {
            Some(x) => self.gen_expr(x, env),
            None => {
                assert(self.lines() =~= self.lines() + Seq::<Seq<char>>::empty());
                Ok(())
            },
        }
    }

    fn gen_return(&mut self, lhs: &Option<Box<Expr>>, env: &mut Env) -> (r: Result<(), GenError>)
        requires
            old(self).indent() == 2,
            old(env).names().len() <= slot_limit(),
        ensures
            final(self).indent() == 2,
            final(env).names().len() <= slot_limit(),
            stmt_emitted(
                r,
                stmt_code(Stmt::ReturnStmt { expr: *lhs }, 2, old(env).names(), old(self).label()),
                old(self).lines(),
                final(self).lines(),
                final(env).names(),
                final(self).label(),
            ),
    {
        let ghost start = self.lines();
        let ghost names0 = env.names();
        match lhs {
            Some(x) => {
                let r = self.gen_expr(x, env);
                if let Err(e) = r {
                    return Err(e);
                }
                assert(self.lines() == start + expr_code(**x, 2, names0)->Ok_0.0);
            },
            None => {
                self.set("push 0");
            },
        }
        let ghost mid = self.lines();
        self.set("pop rax");
        self.set("mov rsp, rbp");
        self.set("pop rbp");
        self.set("ret");
        proof {
            let c = match lhs {
                Some(x) => expr_code(**x, 2, names0)->Ok_0.0,
                None => ins(2, "push 0"@),
            };
            assert(mid == start + c);
            assert(self.lines() =~= start + (c + ins(2, "pop rax"@) + leave_code(2)));
        }
        Ok(())
    }

    fn gen_lvalue(&mut self, expr: &Expr, env: &mut Env, alloc_ok: bool) -> (r: Result<(), GenError>)
        requires
            old(env).names().len() <= slot_limit(),
        ensures
            final(self).indent() == old(self).indent(),
            final(self).label() == old(self).label(),
            final(env).names().len() <= slot_limit(),
            expr_emitted(
                r,
                lvalue_code(*expr, old(self).indent(), old(env).names(), alloc_ok),
                old(self).lines(),
                final(self).lines(),
                final(env).names(),
            ),
    {
        match expr {
            Expr::Id { name, .. } => {
                let ghost names0 = env.names();
                proof {
                    crate::env::lemma_slot_of_bounds(names0, name@);
                }
                let offset = match env.get_offset(name.as_str()) {
                    Some(offset) => offset,
                    None => {
                        if !alloc_ok {
                            return Err(GenError::UnboundVariable);
                        }
                        if env.is_full() {
                            return Err(GenError::LimitExceeded);
                        }
                        let o = env.allocate(name.as_str());
                        proof {
                            assert(names0.push(name@).drop_last() =~= names0);
                        }
                        o
                    },
                };
                let ghost start = self.lines();
                self.set("mov rax, rbp");
                let d = decimal_string(offset as u64);
                let cmd = concat_str("sub rax, ", d.as_str());
                self.set(cmd.as_str());
                self.set("push rax");
                assert(self.lines() =~= start + address_code(self.indent(), offset as nat));
                Ok(())
            },
            _ => Err(GenError::InvalidLvalue),
        }
    }

    fn gen_pops(&mut self, n: usize)
        requires
            n <= max_call_args(),
        ensures
            final(self).indent() == old(self).indent(),
            final(self).label() == old(self).label(),
            final(self).lines() == old(self).lines() + pop_args(old(self).indent(), n as nat),
        decreases n,
    {
        if n == 0 {
            assert(self.lines() =~= self.lines() + Seq::<Seq<char>>::empty());
            return;
        }
        let ghost start = self.lines();
        let cmd = concat_str("pop ", reg_str(n - 1));
        self.set(cmd.as_str());
        self.gen_pops(n - 1);
        assert(self.lines() =~= start + pop_args(old(self).indent(), n as nat));
    }

fn gen_loads(&mut self, n: usize, i: usize)
        requires
            max_call_args() < n < usize::MAX / 8,
            i <= max_call_args(),
        ensures
            final(self).indent() == old(self).indent(),
            final(self).label() == old(self).label(),
            final(self).lines() == old(self).lines() + load_args(old(self).indent(), n as nat, i as nat),
        decreases max_call_args() - i,
    {
        if i >= 6 {
            assert(self.lines() =~= self.lines() + Seq::<Seq<char>>::empty());
            return;
        }
        let ghost start = self.lines();
        let d = decimal_string((8 * (n - 1 - i)) as u64);
        let cmd = concat_str(concat_str(concat_str(concat_str("mov ", reg_str(i)).as_str(), ", [rsp + ").as_str(), d.as_str()).as_str(), "]");
        self.set(cmd.as_str());
        self.gen_loads(n, i + 1);
        assert(self.lines() =~= start + load_args(old(self).indent(), n as nat, i as nat));
    }

        fn gen_args(&mut self, args: &Vec<Box<Expr>>, i: usize, env: &mut Env) -> (r: Result<(), GenError>)
        requires
            i <= args@.len(),
            old(env).names().len() <= slot_limit(),
        ensures
            final(self).indent() == old(self).indent(),
            final(self).label() == old(self).label(),
            final(env).names().len() <= slot_limit(),
            expr_emitted(
                r,
                args_code(args@, i as int, old(self).indent(), old(env).names()),
                old(self).lines(),
                final(self).lines(),
                final(env).names(),
            ),
        decreases args@, args@.len() - i,
    {
        if i >= args.len() {
            assert(self.lines() =~= self.lines() + Seq::<Seq<char>>::empty());
            return Ok(());
        }
        let ghost start = self.lines();
        let ghost names0 = env.names();
        let r1 = self.gen_expr(&args[i], env);
        if let Err(x) = r1 {
            return Err(x);
        }
        let r2 = self.gen_args(args, i + 1, env);
        proof {
            if let Ok((c1, n1)) = expr_code(*args@[i as int], old(self).indent(), names0) {
                if let Ok((c2, n2)) = args_code(args@, i + 1, old(self).indent(), n1) {
                    assert(self.lines() =~= start + (c1 + c2));
                }
            }
        }
        r2
    }

    fn gen_binop_tail(&mut self, op: BinaryOpType)
        ensures
            final(self).indent() == old(self).indent(),
            final(self).label() == old(self).label(),
            final(self).lines() == old(self).lines() + binop_tail(old(self).indent(), op),
    {
        let ghost start = self.lines();
        let ghost ind = self.indent();
        match op {
            BinaryOpType::Assign => {
                self.set("mov [rax], rdi");
                self.set("push rdi");
            },
            BinaryOpType::Inc | BinaryOpType::Dec => {
                self.set("mov rcx, [rax]");
                if op == BinaryOpType::Inc {
                    self.set("add rcx, rdi");
                } else {
                    self.set("sub rcx, rdi");
                }
                self.set("mov [rax], rcx");
                self.set("push rdi");
            },
            BinaryOpType::Add => {
                self.set("add rax, rdi");
                self.set("push rax");
            },
            BinaryOpType::Sub => {
                self.set("sub rax, rdi");
                self.set("push rax");
            },
            BinaryOpType::Mul => {
                self.set("imul rax, rdi");
                self.set("push rax");
            },
            BinaryOpType::Div => {
                self.set("cqo");
                self.set("idiv rdi");
                self.set("push rax");
            },
            _ => {
                self.set("cmp rax, rdi");
                self.set(set_cc_str(op));
                self.set("movzb rax, al");
                self.set("push rax");
            },
        }
        assert(self.lines() =~= start + binop_tail(ind, op));
    }

    fn gen_expr(&mut self, expr: &Expr, env: &mut Env) -> (r: Result<(), GenError>)
        requires
            old(env).names().len() <= slot_limit(),
        ensures
            final(self).indent() == old(self).indent(),
            final(self).label() == old(self).label(),
            final(env).names().len() <= slot_limit(),
            expr_emitted(
                r,
                expr_code(*expr, old(self).indent(), old(env).names()),
                old(self).lines(),
                final(self).lines(),
                final(env).names(),
            ),
        decreases expr, 1int,
    {
        let ghost start = self.lines();
        let ghost names0 = env.names();
        let ghost ind = self.indent();
        match expr {
            Expr::Id { .. } => {
                let r = self.gen_lvalue(expr, env, false);
                if let Err(x) = r {
                    return Err(x);
                }
                let ghost mid = self.lines();
                self.set("pop rax");
                self.set("mov rax, [rax]");
                self.set("push rax");
                proof {
                    let tail = ins(ind, "pop rax"@) + ins(ind, "mov rax, [rax]"@) + ins(ind, "push rax"@);
                    let c = lvalue_code(*expr, ind, names0, false)->Ok_0.0;
                    assert(mid == start + c);

                    assert(self.lines() =~= start + (c + (ins(ind, "pop rax"@) + ins(
                        ind,
                        "mov rax, [rax]"@,
                    ) + ins(ind, "push rax"@))));
                }
                Ok(())
            },
            Expr::Number { value, .. } => {
                let d = decimal_string(*value);
                let cmd = concat_str("push ", d.as_str());
                self.set(cmd.as_str());
                Ok(())
            },
            Expr::Call { name, args, .. } => {
                let n = args.len();
                if n >= usize::MAX / 8 {
                    return Err(GenError::LimitExceeded);
                }
                let r = self.gen_args(args, 0, env);
                if let Err(x) = r {
                    return Err(x);
                }
                let ghost mid = self.lines();
                let cmd = concat_str("call ", name.as_str());
                if n <= 6 {
                    self.gen_pops(n);
                    self.set(cmd.as_str());
                } else {
                    self.gen_loads(n, 0);
                    self.set(cmd.as_str());
                    let d = decimal_string((8 * n) as u64);
                    let drop = concat_str("add rsp, ", d.as_str());
                    self.set(drop.as_str());
                }
                self.set("push rax");
                proof {
                    let c = args_code(args@, 0, ind, names0)->Ok_0.0;
                    assert(mid == start + c);
                    assert(self.lines() =~= start + (c + call_code(ind, name@, n as nat)));
                }
                Ok(())
            },
            Expr::UnaryOp { op, rhs, .. } => {
                let r = self.gen_expr(rhs, env);
                if let Err(x) = r {
                    return Err(x);
                }
                let ghost mid = self.lines();
                self.set("pop rdi");
                self.set("mov rax, 0");
                match op {
                    UnaryOpType::Minus => self.set("sub rax, rdi"),
                    UnaryOpType::Plus => self.set("add rax, rdi"),
                }
                self.set("push rax");
                proof {
                    let c = expr_code(**rhs, ind, names0)->Ok_0.0;
                    assert(mid == start + c);
                    assert(self.lines() =~= start + (c + (ins(ind, "pop rdi"@) + ins(ind, "mov rax, 0"@)
                        + ins(
                        ind,
                        if *op == UnaryOpType::Minus { "sub rax, rdi"@ } else { "add rax, rdi"@ },
                    ) + ins(ind, "push rax"@))));
                }
                Ok(())
            },
            Expr::BinaryOp { .. } => self.gen_binary(expr, env),
        }
    }

    fn gen_binary(&mut self, expr: &Expr, env: &mut Env) -> (r: Result<(), GenError>)
        requires
            expr is BinaryOp,
            old(env).names().len() <= slot_limit(),
        ensures
            final(self).indent() == old(self).indent(),
            final(self).label() == old(self).label(),
            final(env).names().len() <= slot_limit(),
            expr_emitted(
                r,
                expr_code(*expr, old(self).indent(), old(env).names()),
                old(self).lines(),
                final(self).lines(),
                final(env).names(),
            ),
        decreases expr, 0int,
    {
        let ghost start = self.lines();
        let ghost names0 = env.names();
        let ghost ind = self.indent();
        let (op, lhs, rhs) = match expr {
            Expr::BinaryOp { op, lhs, rhs, .. } => (op, lhs, rhs),
            _ => {
                return Err(GenError::InvalidLvalue);
            },
        };
        let r1 = if *op == BinaryOpType::Assign {
            self.gen_lvalue(lhs, env, true)
        } else if *op == BinaryOpType::Inc || *op == BinaryOpType::Dec {
            self.gen_lvalue(lhs, env, false)
        } else {
            self.gen_expr(lhs, env)
        };
        if let Err(x) = r1 {
            return Err(x);
        }
        let ghost mid = self.lines();
        let ghost names1 = env.names();
        let r2 = self.gen_expr(rhs, env);
        if let Err(x) = r2 {
            return Err(x);
        }
        let ghost mid2 = self.lines();
        self.set("pop rdi");
        self.set("pop rax");
        self.gen_binop_tail(*op);
        proof {
            let first = if *op == BinaryOpType::Assign {
                lvalue_code(**lhs, ind, names0, true)
            } else if *op == BinaryOpType::Inc || *op == BinaryOpType::Dec {
                lvalue_code(**lhs, ind, names0, false)
            } else {
                expr_code(**lhs, ind, names0)
            };
            let c1 = first->Ok_0.0;
            let c2 = expr_code(**rhs, ind, names1)->Ok_0.0;
            assert(mid == start + c1);
            assert(mid2 == mid + c2);
            assert(self.lines() =~= start + (c1 + c2 + ins(ind, "pop rdi"@) + ins(ind, "pop rax"@)
                + binop_tail(ind, *op)));
        }
        Ok(())
    
    }
}

/// Parameters with distinct names take the slots 0, 1, 2, ... in
/// declaration order, so the parameter at `i` sits at byte offset `8 * i`.
pub proof fn lemma_param_slots(params: Seq<Arg>, i: int)
    requires
        0 <= i < params.len(),
        forall|j: int, k: int| 0 <= j < k < params.len() ==> params[j].name@ != params[k].name@,
    ensures
        param_names(params).len() == params.len(),
        slot_of(param_names(params), params[i].name@) == Some(i as nat),
    decreases params.len(),
{
    let pre = params.drop_last();
    let last = params.len() - 1;
    if params.len() > 1 {
        if i < last {
            lemma_param_slots(pre, i);
        } else {
            lemma_param_slots(pre, 0);
        }
    }
    lemma_param_names_contents(pre);
    assert(slot_of(param_names(pre), params[last].name@) is None) by {
        crate::env::lemma_slot_of_bounds(param_names(pre), params[last].name@);
        if slot_of(param_names(pre), params[last].name@) is Some {
            let k = slot_of(param_names(pre), params[last].name@)->0 as int;
            assert(param_names(pre)[k] == pre[k].name@);
        }
    }
    if i < last {
        crate::env::lemma_alloc_keeps_slots(param_names(pre), params[i].name@, params[last].name@);
    }
}

/// With distinct names, the slot table after binding the parameters lists
/// their names in order.
pub proof fn lemma_param_names_contents(params: Seq<Arg>)
    requires
        forall|j: int, k: int| 0 <= j < k < params.len() ==> params[j].name@ != params[k].name@,
    ensures
        param_names(params).len() == params.len(),
        forall|k: int| 0 <= k < params.len() ==> param_names(params)[k] == params[k].name@,
    decreases params.len(),
{
    if params.len() > 0 {
        let pre = params.drop_last();
        lemma_param_names_contents(pre);
        let n = params.last().name@;
        crate::env::lemma_slot_of_bounds(param_names(pre), n);
        if slot_of(param_names(pre), n) is Some {
            let k = slot_of(param_names(pre), n)->0 as int;
            assert(param_names(pre)[k] == pre[k].name@);
        }
    }
}

/// The label counter never goes back over a statement, and an `if` or
/// `for`, which takes the counter's current value for its own labels,
/// leaves it at least one higher.
pub proof fn lemma_stmt_labels(s: Stmt, ind: nat, names: Seq<Seq<char>>, label: nat)
    ensures
        stmt_code(s, ind, names, label) matches Ok((c, n, l)) ==> l >= label && ((s is IfStmt
            || s is ForStmt) ==> l >= label + 1),
    decreases s, 0int, 0int,
{
    match s {
        Stmt::IfStmt { cond, true_body, false_body } => {
            if let Ok((c0, n0)) = expr_code(*cond, ind, names) {
                lemma_block_labels(true_body@, 0, ind, n0, label + 1);
                if let Some(fb) = false_body {
                    if let Ok((c1, n1, l1)) = block_code(true_body@, 0, ind, n0, label + 1) {
                        lemma_block_labels(fb@, 0, ind, n1, l1);
                    }
                }
            }
        },
        Stmt::ForStmt { cond, prologue, epilogue, body } => {
            if let Ok((c0, n0)) = opt_expr_code(prologue, ind, names) {
                if let Ok((c1, n1)) = opt_expr_code(cond, ind, n0) {
                    lemma_block_labels(body@, 0, ind, n1, label + 1);
                }
            }
        },
        _ => {},
    }
}

/// A block never moves the label counter back.
pub proof fn lemma_block_labels(b: Seq<Box<Stmt>>, i: int, ind: nat, names: Seq<Seq<char>>, label: nat)
    ensures
        block_code(b, i, ind, names, label) matches Ok((c, n, l)) ==> l >= label,
    decreases b, 0int, b.len() - i,
{
    if 0 <= i < b.len() {
        lemma_stmt_labels(*b[i], ind, names, label);
        if let Ok((c1, n1, l1)) = stmt_code(*b[i], ind, names, label) {
            lemma_block_labels(b, i + 1, ind, n1, l1);
        }
    }
}

/// The label indices that the `if` and `for` statements in `s`, nested
/// ones included, take for their own labels.
pub open spec fn stmt_labels(s: Stmt, ind: nat, names: Seq<Seq<char>>, label: nat) -> Set<nat>
    decreases s, 0int, 0int,
{
    match s {
        Stmt::IfStmt { cond, true_body, false_body } => match expr_code(*cond, ind, names) {
            Ok((c0, n0)) => {
                let own = set![label].union(block_labels(true_body@, 0, ind, n0, label + 1));
                match false_body {
                    Some(fb) => match block_code(true_body@, 0, ind, n0, label + 1) {
                        Ok((c1, n1, l1)) => own.union(block_labels(fb@, 0, ind, n1, l1)),
                        Err(x) => own,
                    },
                    None => own,
                }
            },
            Err(x) => set![label],
        },
        Stmt::ForStmt { cond, prologue, epilogue, body } => match opt_expr_code(prologue, ind, names) {
            Ok((c0, n0)) => match opt_expr_code(cond, ind, n0) {
                Ok((c1, n1)) => set![label].union(block_labels(body@, 0, ind, n1, label + 1)),
                Err(x) => set![label],
            },
            Err(x) => set![label],
        },
        _ => Set::empty(),
    }
}

/// The label indices taken by the statements of `b` from position `i` on.
pub open spec fn block_labels(b: Seq<Box<Stmt>>, i: int, ind: nat, names: Seq<Seq<char>>, label: nat) -> Set<nat>
    decreases b, 0int, b.len() - i,
{
    if i < 0 || i >= b.len() {
        Set::empty()
    } else {
        match stmt_code(*b[i], ind, names, label) {
            Ok((c1, n1, l1)) => stmt_labels(*b[i], ind, names, label).union(
                block_labels(b, i + 1, ind, n1, l1),
            ),
            Err(x) => stmt_labels(*b[i], ind, names, label),
        }
    }
}

/// Every label index that a statement takes, nested ones included, lies
/// between the counter before it and the counter after it.
pub proof fn lemma_stmt_labels_range(s: Stmt, ind: nat, names: Seq<Seq<char>>, label: nat)
    ensures
        stmt_code(s, ind, names, label) matches Ok((c, n, l)) ==> forall|x: nat|
            #[trigger] stmt_labels(s, ind, names, label).contains(x) ==> label <= x < l,
    decreases s, 0int, 0int,
{
    match s {
        Stmt::IfStmt { cond, true_body, false_body } => {
            if let Ok((c0, n0)) = expr_code(*cond, ind, names) {
                lemma_block_labels_range(true_body@, 0, ind, n0, label + 1);
                lemma_block_labels(true_body@, 0, ind, n0, label + 1);
                if let Ok((c1, n1, l1)) = block_code(true_body@, 0, ind, n0, label + 1) {
                    if let Some(fb) = false_body {
                        lemma_block_labels_range(fb@, 0, ind, n1, l1);
                        lemma_block_labels(fb@, 0, ind, n1, l1);
                    }
                    lemma_if_labels_range(s, ind, names, label);
                }
            }
        },
        Stmt::ForStmt { cond, prologue, epilogue, body } => {
            if let Ok((c0, n0)) = opt_expr_code(prologue, ind, names) {
                if let Ok((c1, n1)) = opt_expr_code(cond, ind, n0) {
                    lemma_block_labels_range(body@, 0, ind, n1, label + 1);
                    lemma_block_labels(body@, 0, ind, n1, label + 1);
                    if let Ok((c, n, l)) = stmt_code(s, ind, names, label) {
                        let l2 = block_code(body@, 0, ind, n1, label + 1)->Ok_0.2;
                        assert(l == l2);
                        assert forall|x: nat| #[trigger] stmt_labels(s, ind, names, label).contains(x) implies label
                            <= x < l by {
                            if x != label {
                                assert(block_labels(body@, 0, ind, n1, label + 1).contains(x));
                            }
                        }
                    }
                }
            }
        },
        _ => {},
    }
}

/// The range law for an `if` whose condition and first branch generate,
/// once it holds for its branches.
proof fn lemma_if_labels_range(s: Stmt, ind: nat, names: Seq<Seq<char>>, label: nat)
    requires
        s is IfStmt,
        expr_code(*s->IfStmt_cond, ind, names) is Ok,
        block_code(s->IfStmt_true_body@, 0, ind, expr_code(*s->IfStmt_cond, ind, names)->Ok_0.1, label + 1) is Ok,
        ({
            let n0 = expr_code(*s->IfStmt_cond, ind, names)->Ok_0.1;
            let (c1, n1, l1) = block_code(s->IfStmt_true_body@, 0, ind, n0, label + 1)->Ok_0;
            &&& l1 >= label + 1
            &&& forall|x: nat| #[trigger] block_labels(s->IfStmt_true_body@, 0, ind, n0, label + 1).contains(x)
                ==> label + 1 <= x < l1
            &&& s->IfStmt_false_body matches Some(fb) ==> (block_code(fb@, 0, ind, n1, l1) matches Ok((c2, n2, l2))
                ==> l2 >= l1 && forall|x: nat| #[trigger] block_labels(fb@, 0, ind, n1, l1).contains(x)
                ==> l1 <= x < l2)
        }),
    ensures
        stmt_code(s, ind, names, label) matches Ok((c, n, l)) ==> forall|x: nat|
            #[trigger] stmt_labels(s, ind, names, label).contains(x) ==> label <= x < l,
{
    if let Stmt::IfStmt { cond, true_body, false_body } = s {
        let (c0, n0) = expr_code(*cond, ind, names)->Ok_0;
        let (c1, n1, l1) = block_code(true_body@, 0, ind, n0, label + 1)->Ok_0;
        if let Ok((c, n, l)) = stmt_code(s, ind, names, label) {
            let own = set![label].union(block_labels(true_body@, 0, ind, n0, label + 1));
            match false_body {
                Some(fb) => {
                    let (c2, n2, l2) = block_code(fb@, 0, ind, n1, l1)->Ok_0;
                    assert(l == l2);
                    assert(stmt_labels(s, ind, names, label) == own.union(block_labels(fb@, 0, ind, n1, l1)));
                },
                None => {
                    assert(l == l1);
                    assert(stmt_labels(s, ind, names, label) == own);
                },
            }
        }
    }
}

/// Every label index that a block takes lies between the counter before
/// it and the counter after it.
pub proof fn lemma_block_labels_range(b: Seq<Box<Stmt>>, i: int, ind: nat, names: Seq<Seq<char>>, label: nat)
    ensures
        block_code(b, i, ind, names, label) matches Ok((c, n, l)) ==> forall|x: nat|
            #[trigger] block_labels(b, i, ind, names, label).contains(x) ==> label <= x < l,
    decreases b, 0int, b.len() - i,
{
    if 0 <= i < b.len() {
        lemma_stmt_labels_range(*b[i], ind, names, label);
        lemma_stmt_labels(*b[i], ind, names, label);
        if let Ok((c1, n1, l1)) = stmt_code(*b[i], ind, names, label) {
            lemma_block_labels_range(b, i + 1, ind, n1, l1);
            lemma_block_labels(b, i + 1, ind, n1, l1);
            if let Ok((c, n, l)) = block_code(b, i, ind, names, label) {
                let l2 = block_code(b, i + 1, ind, n1, l1)->Ok_0.2;
                assert(l == l2);
                assert forall|x: nat| #[trigger] block_labels(b, i, ind, names, label).contains(x) implies label
                    <= x < l by {
                    if !stmt_labels(*b[i], ind, names, label).contains(x) {
                        assert(block_labels(b, i + 1, ind, n1, l1).contains(x));
                    }
                }
            }
        }
    }
}

/// An `if` or `for` never shares its label index with an `if` or `for`
/// nested anywhere in its bodies: those take indices above its own.
pub proof fn lemma_nested_labels_differ(s: Stmt, ind: nat, names: Seq<Seq<char>>, label: nat, x: nat)
    requires
        s is IfStmt || s is ForStmt,
        stmt_code(s, ind, names, label) is Ok,
        stmt_labels(s, ind, names, label).contains(x),
        x != label,
    ensures
        label < x < stmt_code(s, ind, names, label)->Ok_0.2,
{
    lemma_stmt_labels_range(s, ind, names, label);
}

/// Two statements side by side in a block, the first an `if` or `for`: the
/// first takes index `label` for its own labels and leaves the counter
/// above it, and the second starts from there, so an `if` or `for` in
/// second place never reuses the first one's index.
pub proof fn lemma_sibling_labels(
    s1: Stmt,
    s2: Stmt,
    ind: nat,
    names: Seq<Seq<char>>,
    label: nat,
)
    requires
        s1 is IfStmt || s1 is ForStmt,
        stmt_code(s1, ind, names, label) is Ok,
    ensures
        ({
            let (c1, n1, l1) = stmt_code(s1, ind, names, label)->Ok_0;
            l1 > label && (stmt_code(s2, ind, n1, l1) matches Ok((c2, n2, l2)) ==> l2 >= l1)
        }),
{
    lemma_stmt_labels(s1, ind, names, label);
    let (c1, n1, l1) = stmt_code(s1, ind, names, label)->Ok_0;
    lemma_stmt_labels(s2, ind, n1, l1);
}

/// An `if` with an `else` branch: condition, compare with zero, jump to
/// `else` if zero, the first branch, jump to `end`, the `else` label, the
/// second branch, the `end` label, in that order.
pub proof fn lemma_if_else_shape(
    cond: Box<Expr>,
    true_body: Vec<Box<Stmt>>,
    false_body: Vec<Box<Stmt>>,
    ind: nat,
    names: Seq<Seq<char>>,
    label: nat,
)
    requires
        label < usize::MAX,
        expr_code(*cond, ind, names) is Ok,
        block_code(true_body@, 0, ind, expr_code(*cond, ind, names)->Ok_0.1, label + 1) is Ok,
    ensures
        ({
            let (c0, n0) = expr_code(*cond, ind, names)->Ok_0;
            let (c1, n1, l1) = block_code(true_body@, 0, ind, n0, label + 1)->Ok_0;
            let s = Stmt::IfStmt { cond, true_body, false_body: Some(false_body) };
            match block_code(false_body@, 0, ind, n1, l1) {
                Ok((c2, n2, l2)) => stmt_code(s, ind, names, label) == Ok::<
                    (Seq<Seq<char>>, Seq<Seq<char>>, nat),
                    GenError,
                >(
                    (
                        c0 + ins(ind, "pop rax"@) + ins(ind, "cmp rax, 0"@) + ins(
                            ind,
                            "je .Lelse_"@ + decimal(label),
                        ) + c1 + ins(ind, "jmp .Lend_"@ + decimal(label)) + ins(
                            0,
                            ".Lelse_"@ + decimal(label) + ":"@,
                        ) + c2 + ins(0, ".Lend_"@ + decimal(label) + ":"@),
                        n2,
                        l2,
                    ),
                ),
                Err(x) => stmt_code(s, ind, names, label) == Err::<
                    (Seq<Seq<char>>, Seq<Seq<char>>, nat),
                    GenError,
                >(x),
            }
        }),
{
    reveal_strlit("je ");
    reveal_strlit("je .Lelse_");
    reveal_strlit("jmp ");
    reveal_strlit("jmp .Lend_");
    reveal_strlit(".L");
    reveal_strlit("_");
    reveal_strlit("else");
    reveal_strlit("end");
    reveal_strlit(".Lelse_");
    reveal_strlit(".Lend_");
    let l = label;
    assert("je "@ + label_text("else"@, l) =~= "je .Lelse_"@ + decimal(l));
    assert("jmp "@ + label_text("end"@, l) =~= "jmp .Lend_"@ + decimal(l));
    assert(label_text("else"@, l) + ":"@ =~= ".Lelse_"@ + decimal(l) + ":"@);
    assert(label_text("end"@, l) + ":"@ =~= ".Lend_"@ + decimal(l) + ":"@);
    let (c0, n0) = expr_code(*cond, ind, names)->Ok_0;
    let (c1, n1, l1) = block_code(true_body@, 0, ind, n0, label + 1)->Ok_0;
    if let Ok((c2, n2, l2)) = block_code(false_body@, 0, ind, n1, l1) {
        let s = Stmt::IfStmt { cond, true_body, false_body: Some(false_body) };
        assert(stmt_code(s, ind, names, label)->Ok_0.0 =~= c0 + ins(ind, "pop rax"@) + ins(
            ind,
            "cmp rax, 0"@,
        ) + ins(ind, "je .Lelse_"@ + decimal(label)) + c1 + ins(ind, "jmp .Lend_"@ + decimal(label))
            + ins(0, ".Lelse_"@ + decimal(label) + ":"@) + c2 + ins(0, ".Lend_"@ + decimal(label) + ":"@));
    }
}

/// Two expressions that are the same but for their source positions.
pub open spec fn same_expr(a: Expr, b: Expr) -> bool
    decreases a, 0int,
{
    match a {
        Expr::Id { name, .. } => b is Id && b->Id_name@ == name@,
        Expr::Number { value, .. } => b is Number && b->Number_value == value,
        Expr::Call { name, args, .. } => b is Call && b->Call_name@ == name@ && same_args(
            args@,
            b->Call_args@,
            0,
        ),
        Expr::UnaryOp { op, rhs, .. } => b is UnaryOp && b->UnaryOp_op == op && same_expr(
            *rhs,
            *b->UnaryOp_rhs,
        ),
        Expr::BinaryOp { op, lhs, rhs, .. } => b is BinaryOp && b->BinaryOp_op == op && same_expr(
            *lhs,
            *b->BinaryOp_lhs,
        ) && same_expr(*rhs, *b->BinaryOp_rhs),
    }
}

/// Two argument lists of one length whose arguments from `i` on are the
/// same but for positions.
pub open spec fn same_args(a: Seq<Box<Expr>>, b: Seq<Box<Expr>>, i: int) -> bool
    decreases a, a.len() - i,
{
    a.len() == b.len() && (i < 0 || i >= a.len() || (same_expr(*a[i], *b[i]) && same_args(a, b, i + 1)))
}

pub open spec fn same_opt(a: Option<Box<Expr>>, b: Option<Box<Expr>>) -> bool {
    match a {
        Some(x) => b is Some && same_expr(*x, *b->0),
        None => b is None,
    }
}

/// Two parameter lists with the same names in the same order.
pub open spec fn same_params(a: Seq<Arg>, b: Seq<Arg>) -> bool {
    a.len() == b.len() && forall|k: int| 0 <= k < a.len() ==> #[trigger] a[k].name@ == b[k].name@
}

/// Two statements that are the same but for source positions.
pub open spec fn same_stmt(a: Stmt, b: Stmt) -> bool
    decreases a, 0int, 0int,
{
    match a {
        Stmt::ExprStmt { expr } => b is ExprStmt && same_expr(*expr, *b->ExprStmt_expr),
        Stmt::IfStmt { cond, true_body, false_body } => b is IfStmt && same_expr(*cond, *b->IfStmt_cond)
            && same_block(true_body@, b->IfStmt_true_body@, 0) && match false_body {
            Some(fb) => b->IfStmt_false_body is Some && same_block(fb@, b->IfStmt_false_body->0@, 0),
            None => b->IfStmt_false_body is None,
        },
        Stmt::ForStmt { cond, prologue, epilogue, body } => b is ForStmt && same_opt(cond, b->ForStmt_cond)
            && same_opt(prologue, b->ForStmt_prologue) && same_opt(epilogue, b->ForStmt_epilogue)
            && same_block(body@, b->ForStmt_body@, 0),
        Stmt::ReturnStmt { expr } => b is ReturnStmt && same_opt(expr, b->ReturnStmt_expr),
        Stmt::FnStmt { name, args, body, .. } => b is FnStmt && b->FnStmt_name@ == name@ && same_params(
            args.container@,
            b->FnStmt_args.container@,
        ) && same_block(body@, b->FnStmt_body@, 0),
    }
}

/// Two statement lists of one length whose statements from `i` on are the
/// same but for positions.
pub open spec fn same_block(a: Seq<Box<Stmt>>, b: Seq<Box<Stmt>>, i: int) -> bool
    decreases a, 0int, a.len() - i,
{
    a.len() == b.len() && (i < 0 || i >= a.len() || (same_stmt(*a[i], *b[i]) && same_block(a, b, i + 1)))
}

/// Two modules that are the same but for source positions.
pub open spec fn same_module(a: Module, b: Module) -> bool {
    same_block(a.stmt_list@, b.stmt_list@, 0)
}

proof fn lemma_expr_code_same(a: Expr, b: Expr, ind: nat, names: Seq<Seq<char>>)
    requires
        same_expr(a, b),
    ensures
        expr_code(a, ind, names) == expr_code(b, ind, names),
        lvalue_code(a, ind, names, true) == lvalue_code(b, ind, names, true),
        lvalue_code(a, ind, names, false) == lvalue_code(b, ind, names, false),
    decreases a, 0int,
{
    match a {
        Expr::Call { name, args, .. } => {
            if let Expr::Call { name: name2, args: args2, .. } = b {
                assert(same_args(args@, args2@, 0));
                lemma_args_code_same(args@, args2@, 0, ind, names);
            }
        },
        Expr::UnaryOp { op, rhs, .. } => {
            lemma_expr_code_same(*rhs, *b->UnaryOp_rhs, ind, names);
        },
        Expr::BinaryOp { op, lhs, rhs, .. } => {
            if let Expr::BinaryOp { op: op2, lhs: lhs2, rhs: rhs2, .. } = b {
                lemma_expr_code_same(*lhs, *lhs2, ind, names);
                let first = if op == BinaryOpType::Assign {
                    lvalue_code(*lhs, ind, names, true)
                } else if op == BinaryOpType::Inc || op == BinaryOpType::Dec {
                    lvalue_code(*lhs, ind, names, false)
                } else {
                    expr_code(*lhs, ind, names)
                };
                if let Ok((c1, n1)) = first {
                    lemma_expr_code_same(*rhs, *rhs2, ind, n1);
                }
            }
        },
        _ => {},
    }
}

proof fn lemma_args_code_same(a: Seq<Box<Expr>>, b: Seq<Box<Expr>>, i: int, ind: nat, names: Seq<Seq<char>>)
    requires
        same_args(a, b, i),
    ensures
        args_code(a, i, ind, names) == args_code(b, i, ind, names),
    decreases a, a.len() - i,
{
    if 0 <= i < a.len() {
        lemma_expr_code_same(*a[i], *b[i], ind, names);
        if let Ok((c1, n1)) = expr_code(*a[i], ind, names) {
            lemma_args_code_same(a, b, i + 1, ind, n1);
        }
    }
}

proof fn lemma_opt_code_same(a: Option<Box<Expr>>, b: Option<Box<Expr>>, ind: nat, names: Seq<Seq<char>>)
    requires
        same_opt(a, b),
    ensures
        opt_expr_code(a, ind, names) == opt_expr_code(b, ind, names),
{
    if let Some(x) = a {
        lemma_expr_code_same(*x, *b->0, ind, names);
    }
}

proof fn lemma_stmt_code_same(a: Stmt, b: Stmt, ind: nat, names: Seq<Seq<char>>, label: nat)
    requires
        same_stmt(a, b),
    ensures
        stmt_code(a, ind, names, label) == stmt_code(b, ind, names, label),
    decreases a, 0int, 0int,
{
    match a {
        Stmt::ExprStmt { expr } => {
            lemma_expr_code_same(*expr, *b->ExprStmt_expr, ind, names);
        },
        Stmt::IfStmt { cond, true_body, false_body } => {
            lemma_expr_code_same(*cond, *b->IfStmt_cond, ind, names);
            if let Ok((c0, n0)) = expr_code(*cond, ind, names) {
                lemma_block_code_same(true_body@, b->IfStmt_true_body@, 0, ind, n0, label + 1);
                if let Some(fb) = false_body {
                    if let Ok((c1, n1, l1)) = block_code(true_body@, 0, ind, n0, label + 1) {
                        lemma_block_code_same(fb@, b->IfStmt_false_body->0@, 0, ind, n1, l1);
                    }
                }
            }
        },
        Stmt::ForStmt { cond, prologue, epilogue, body } => {
            lemma_opt_code_same(prologue, b->ForStmt_prologue, ind, names);
            if let Ok((c0, n0)) = opt_expr_code(prologue, ind, names) {
                lemma_opt_code_same(cond, b->ForStmt_cond, ind, n0);
                if let Ok((c1, n1)) = opt_expr_code(cond, ind, n0) {
                    lemma_block_code_same(body@, b->ForStmt_body@, 0, ind, n1, label + 1);
                    if let Ok((c2, n2, l2)) = block_code(body@, 0, ind, n1, label + 1) {
                        lemma_opt_code_same(epilogue, b->ForStmt_epilogue, ind, n2);
                    }
                }
            }
        },
        Stmt::ReturnStmt { expr } => {
            lemma_opt_code_same(expr, b->ReturnStmt_expr, ind, names);
        },
        _ => {},
    }
}

proof fn lemma_block_code_same(
    a: Seq<Box<Stmt>>,
    b: Seq<Box<Stmt>>,
    i: int,
    ind: nat,
    names: Seq<Seq<char>>,
    label: nat,
)
    requires
        same_block(a, b, i),
    ensures
        block_code(a, i, ind, names, label) == block_code(b, i, ind, names, label),
    decreases a, 0int, a.len() - i,
{
    if 0 <= i < a.len() {
        lemma_stmt_code_same(*a[i], *b[i], ind, names, label);
        if let Ok((c1, n1, l1)) = stmt_code(*a[i], ind, names, label) {
            lemma_block_code_same(a, b, i + 1, ind, n1, l1);
        }
    }
}

proof fn lemma_param_names_same(a: Seq<Arg>, b: Seq<Arg>)
    requires
        same_params(a, b),
    ensures
        param_names(a) == param_names(b),
    decreases a.len(),
{
    if a.len() > 0 {
        let k = a.len() - 1;
        assert(a[k].name@ == b[k].name@);
        assert(same_params(a.drop_last(), b.drop_last())) by {
            assert forall|j: int| 0 <= j < a.drop_last().len() implies #[trigger] a.drop_last()[j].name@
                == b.drop_last()[j].name@ by {
                assert(a[j].name@ == b[j].name@);
            }
        }
        lemma_param_names_same(a.drop_last(), b.drop_last());
    }
}

proof fn lemma_fns_code_same(a: Seq<Box<Stmt>>, b: Seq<Box<Stmt>>, i: int, label: nat)
    requires
        same_block(a, b, i),
    ensures
        fns_code(a, i, label) == fns_code(b, i, label),
    decreases a.len() - i,
{
    if 0 <= i < a.len() {
        assert(same_stmt(*a[i], *b[i]) && same_block(a, b, i + 1));
        if let Stmt::FnStmt { name, args, body, .. } = *a[i] {
            let bs = *b[i];
            assert(same_stmt(*a[i], bs));
            lemma_param_names_same(args.container@, bs->FnStmt_args.container@);
            lemma_block_code_same(body@, bs->FnStmt_body@, 0, 2, param_names(args.container@), label);
            if let Ok((c1, l1)) = fn_code(name@, args.container@, body@, label) {
                lemma_fns_code_same(a, b, i + 1, l1);
            }
        }
    }
}

/// Source positions do not reach the output: two modules that differ only
/// in positions compile to the same lines, or fail the same way.
pub proof fn lemma_positions_irrelevant(m1: Module, m2: Module, label: nat)
    requires
        same_module(m1, m2),
    ensures
        module_code(m1, label) == module_code(m2, label),
{
    lemma_fns_code_same(m1.stmt_list@, m2.stmt_list@, 0, label);
}

/// `x += e` or `x -= e` on a name `x` that is not yet bound is a
/// generation error, whatever `e` is.
pub proof fn lemma_unbound_compound_assignment(e: Expr, ind: nat, names: Seq<Seq<char>>)
    requires
        e matches Expr::BinaryOp { op, lhs, .. } && (op == BinaryOpType::Inc || op == BinaryOpType::Dec)
            && (*lhs matches Expr::Id { name, .. } && slot_of(names, name@) is None),
    ensures
        expr_code(e, ind, names) == Err::<(Seq<Seq<char>>, Seq<Seq<char>>), GenError>(GenError::UnboundVariable),
{
}

/// What a run of the generator on `m` from `before` to `after` returns and emits.
pub open spec fn run_outcome(before: Codegen, after: Codegen, m: Module, r: Result<(), GenError>) -> bool {
    match module_code(m, before.label()) {
        Ok((c, l)) => r is Ok && after.lines() == before.lines() + c && after.label() == l,
        Err(x) => r == Err::<(), GenError>(x),
    }
}

/// Running the generator twice, on the same module or on two that differ
/// only in source positions, from generators in the same state (two fresh
/// ones, say), gives the same result and, on success, identical lines and
/// label counters.
pub proof fn lemma_output_deterministic(
    m1: Module,
    m2: Module,
    a0: Codegen,
    a1: Codegen,
    ra: Result<(), GenError>,
    b0: Codegen,
    b1: Codegen,
    rb: Result<(), GenError>,
)
    requires
        same_module(m1, m2),
        a0.lines() == b0.lines(),
        a0.label() == b0.label(),
        run_outcome(a0, a1, m1, ra),
        run_outcome(b0, b1, m2, rb),
    ensures
        ra is Ok <==> rb is Ok,
        ra is Err ==> ra == rb,
        ra is Ok ==> a1.lines() == b1.lines() && a1.label() == b1.label(),
{
    lemma_positions_irrelevant(m1, m2, a0.label());
}

} // verus!
