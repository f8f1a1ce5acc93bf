use buguc::ast::Param;
use buguc::ir::{ast2ir, lowerable, BranchLabel};
use buguc::lexer::tokenize;
use buguc::parser::parsing;

fn ir_of(src: &str) -> Option<String> {
    let tokens = tokenize(src.to_string()).unwrap();
    let (prog, mut table) = parsing(&tokens);
    if lowerable(&prog, &table) {
        Some(format!("{:?}", ast2ir(&prog, &mut table)))
    } else {
        None
    }
}

#[test]
fn param_new_is_an_integer() {
    let p = Param::new(vec![1, 2], "a".to_string());
    assert_eq!(p.scope, vec![1, 2]);
    assert_eq!(p.name, "a");
    assert_eq!(format!("{:?}", p.t), "Integer");
}

#[test]
fn branch_frames_enter_and_leave() {
    let mut b = BranchLabel::init();
    assert!(!b.has_frame());
    assert!(!b.can_create());
    b.enter_branch();
    assert!(b.has_frame());
    assert!(b.can_create());
    b.enter_branch();
    b.leave_branch();
    assert!(b.has_frame());
    b.leave_branch();
    assert!(!b.has_frame());
}

#[test]
fn fresh_frame_has_no_labels() {
    let mut b = BranchLabel::init();
    b.enter_branch();
    assert!(!b.has_label(buguc::ir::LabelType::Other));
    assert!(!b.has_label(buguc::ir::LabelType::Cond));
    assert!(!b.has_label(buguc::ir::LabelType::Update));
}

#[test]
fn return_of_a_constant() {
    assert_eq!(
        ir_of("int main() { return 2; }").unwrap(),
        "IrProg { funcs: [IrFunc { name: \"main\", params: [], stmts: [Ldc(2, \"v0\"), Ret(\"v0\")] }], global_vars: [] }"
    );
}

#[test]
fn declarations_and_assignment() {
    assert_eq!(
        ir_of("int main() { int a = 3; int b; b = a + 4 * 2; return b; }").unwrap(),
        "IrProg { funcs: [IrFunc { name: \"main\", params: [], stmts: [Ldc(3, \"v0\"), Assign([1, 2], \"a\", \"v0\"), Ref([1, 2], \"a\"), Ldc(4, \"v2\"), Ldc(2, \"v3\"), Mul(\"v3\", \"v2\", \"v4\"), Add(\"v4\", \"v1\", \"v5\"), Assign([1, 2], \"b\", \"v5\"), Ref([1, 2], \"b\"), Ret(\"v6\")] }], global_vars: [] }"
    );
}

#[test]
fn if_else_makes_labels() {
    assert_eq!(
        ir_of("int main() { int a = 1; if (a < 2) a = 5; else a = 6; return a; }").unwrap(),
        "IrProg { funcs: [IrFunc { name: \"main\", params: [], stmts: [Ldc(1, \"v0\"), Assign([1, 2], \"a\", \"v0\"), Ref([1, 2], \"a\"), Ldc(2, \"v2\"), Lt(\"v2\", \"v1\", \"v3\"), Beq(\"v3\", \"L2\"), Ldc(5, \"v4\"), Assign([1, 2], \"a\", \"v4\"), Jmp(\"L1\"), Label(\"L2\"), Ldc(6, \"v5\"), Assign([1, 2], \"a\", \"v5\"), Label(\"L1\"), Ref([1, 2], \"a\"), Ret(\"v1\")] }], global_vars: [] }"
    );
}

#[test]
fn conditional_expression_makes_labels() {
    assert_eq!(
        ir_of("int main() { return 1 ? 2 : 3; }").unwrap(),
        "IrProg { funcs: [IrFunc { name: \"main\", params: [], stmts: [Ldc(1, \"v0\"), Beq(\"v0\", \"L1\"), Ldc(2, \"v1\"), Jmp(\"L2\"), Label(\"L1\"), Ldc(3, \"v2\"), Label(\"L2\"), Ret(\"v2\")] }], global_vars: [] }"
    );
}

#[test]
fn reading_an_undeclared_variable_cannot_be_lowered() {
    assert_eq!(ir_of("int main() { return x; }"), None);
}

#[test]
fn assigning_an_undeclared_variable_is_lowered() {
    assert_eq!(
        ir_of("int main() { x = 1; }").unwrap(),
        "IrProg { funcs: [IrFunc { name: \"main\", params: [], stmts: [Ldc(1, \"v0\"), Assign([1, 2], \"x\", \"v0\")] }], global_vars: [] }"
    );
}

use buguc::ast::{BlockItem, Decl, Expr, Func, Prog, Stmt, Type, Unary};
use buguc::codegen::write_asm;
use buguc::ir_handle::op;
use buguc::symbols::{SymTab, Symbol};
use std::collections::VecDeque;

fn id(scope: Vec<u32>, name: &str) -> Expr {
    Expr::Unary(Unary::Identifier(Box::new(scope), Box::new(name.to_string())))
}

fn num(v: i32) -> Expr {
    Expr::Unary(Unary::Int(v))
}

fn assign(scope: Vec<u32>, name: &str, e: Expr) -> BlockItem {
    BlockItem::Stmt(Stmt::Expr(Some(Expr::Assign(Box::new(scope), Box::new(name.to_string()), Box::new(e)))))
}

const GCD: &str = "int gcd(int a, int b) { while (a != 0) { int c; c = b % a; b = a; a = 1; a = 2; a = c; } return b; }";

/// The program `GCD` as parsed, with the table of its variables.
fn gcd() -> (Prog, SymTab) {
    let tokens = tokenize(GCD.to_string()).unwrap();
    parsing(&tokens)
}

/// The program `GCD` built by hand, with the scopes of its variables, and the
/// table of those variables.
fn gcd_by_hand() -> (Prog, SymTab) {
    let f = vec![1, 2];
    let inner = vec![1, 2, 3];
    let body = vec![
        BlockItem::Decl(Decl {
            t: Type::Integer,
            name: "c".to_string(),
            indexes: VecDeque::new(),
            expr: None,
            scope: inner.clone(),
        }),
        assign(inner.clone(), "c", Expr::Mod(Box::new(id(f.clone(), "b")), Box::new(id(f.clone(), "a")))),
        assign(f.clone(), "b", id(f.clone(), "a")),
        assign(f.clone(), "a", num(1)),
        assign(f.clone(), "a", num(2)),
        assign(f.clone(), "a", id(inner.clone(), "c")),
    ];
    let prog = Prog {
        funcs: vec![Func {
            name: "gcd".to_string(),
            stmt: vec![
                BlockItem::Stmt(Stmt::While(
                    Expr::NotEquals(Box::new(id(f.clone(), "a")), Box::new(num(0))),
                    Box::new(Stmt::Block(body)),
                )),
                BlockItem::Stmt(Stmt::Ret(id(f.clone(), "b"))),
            ],
            params: vec![Param::new(f.clone(), "a".to_string()), Param::new(f.clone(), "b".to_string())],
        }],
        global_vars: vec![],
    };
    let mut table = SymTab::init();
    table.put(f.clone(), "a".to_string(), Symbol::new("a".to_string()));
    table.put(f.clone(), "b".to_string(), Symbol::new("b".to_string()));
    table.put(inner.clone(), "c".to_string(), Symbol::new("c".to_string()));
    (prog, table)
}

#[test]
fn gcd_parses_to_the_tree_built_by_hand() {
    let (parsed, table) = gcd();
    let (built, _) = gcd_by_hand();
    assert_eq!(format!("{:?}", parsed), format!("{:?}", built));
    assert!(table.contains(&vec![1, 2], &"a".to_string()));
    assert!(table.contains(&vec![1, 2], &"b".to_string()));
    assert!(table.contains(&vec![1, 2, 3], &"c".to_string()));
    assert!(!table.contains(&vec![1, 2], &"c".to_string()));
}

#[test]
fn gcd_loop_lowered() {
    let (prog, mut table) = gcd();
    let ir = ast2ir(&prog, &mut table);
    assert_eq!(
        format!("{:?}", ir.funcs[0].params),
        "[Param([1, 2], \"a\", \"gcd\"), Param([1, 2], \"b\", \"gcd\")]"
    );
    assert_eq!(
        format!("{:?}", ir.funcs[0].stmts),
        "[Label(\"L2\"), Label(\"L3\"), Ref([1, 2], \"a\"), Ldc(0, \"v0\"), NotEqual(\"v0\", \"a0\", \"v1\", \"v2\"), Beq(\"v2\", \"L1\"), \
Ref([1, 2], \"b\"), Ref([1, 2], \"a\"), Mod(\"a0\", \"a1\", \"v3\"), Assign([1, 2, 3], \"c\", \"v3\"), Ref([1, 2], \"a\"), \
Assign([1, 2], \"b\", \"a0\"), Ldc(1, \"v5\"), Assign([1, 2], \"a\", \"v5\"), Ldc(2, \"v6\"), Assign([1, 2], \"a\", \"v6\"), \
Ref([1, 2, 3], \"c\"), Assign([1, 2], \"a\", \"v4\"), Jmp(\"L2\"), Label(\"L1\"), Ref([1, 2], \"b\"), Ret(\"a1\")]"
    );
    assert_eq!(table.get(&vec![1, 2], &"a".to_string()).reg, Some("a0".to_string()));
    assert_eq!(table.get(&vec![1, 2, 3], &"c".to_string()).reg, Some("v4".to_string()));
}

#[test]
fn gcd_loop_allocated_and_emitted() {
    let (prog, mut table) = gcd();
    let ir = ast2ir(&prog, &mut table);
    let q = op(&ir, &mut table);
    assert_eq!(
        format!("{:?}", q.funcs[0].stmts),
        "[Label(\"L2\"), Label(\"L3\"), Ref([1, 2], \"a\"), Ldc(0, \"t0\"), NotEqual(\"t0\", \"a0\", \"t1\", \"t2\"), Beq(\"t2\", \"L1\"), \
Ref([1, 2], \"b\"), Ref([1, 2], \"a\"), Mod(\"a0\", \"a1\", \"t3\"), Assign([1, 2, 3], \"c\", \"t3\"), Ref([1, 2], \"a\"), \
Assign([1, 2], \"b\", \"a0\"), Ldc(1, \"t5\"), Assign([1, 2], \"a\", \"t5\"), Ldc(2, \"t6\"), Assign([1, 2], \"a\", \"t6\"), \
Ref([1, 2, 3], \"c\"), Assign([1, 2], \"a\", \"t4\"), Jmp(\"L2\"), Label(\"L1\"), Ref([1, 2], \"b\"), Ret(\"a1\"), \
Param([1, 2], \"a\", \"gcd\"), Param([1, 2], \"b\", \"gcd\")]"
    );
    let text = write_asm(&q, &table);
    assert!(text.contains(
        "L2:\nL3:\n  li t0, 0\n  sub t1 ,a0 ,t0\n  snez t2 ,t1\n  beqz t2 ,L1\n  mod t3 ,a1 ,a0\n  mv t4 ,t3\n  mv a1 ,a0\n"
    ));
    assert!(text.contains("  mv a0 ,t4\n  j L2\nL1:\n  mv a0, a1\n"));
}

use buguc::ast::{Call, IndexExpr};

fn index(scope: Vec<u32>, name: &str, idx: Vec<i32>) -> Expr {
    Expr::Unary(Unary::Index(Box::new(scope), IndexExpr { name: name.to_string(), index: VecDeque::from(idx) }))
}

fn decl(scope: Vec<u32>, name: &str, indexes: Vec<i32>, expr: Option<Expr>) -> Decl {
    Decl { t: Type::Integer, name: name.to_string(), indexes: VecDeque::from(indexes), expr, scope }
}

fn array_symbol(name: &str, range: Vec<i32>) -> Symbol {
    let mut s = Symbol::new(name.to_string());
    s.array_range = VecDeque::from(range);
    s
}

/// `int g = 7; int arr[2][3]; int add(int x, int y) { return x + y; }
/// int main() { int loc[4]; return add(g, arr[1][2]) + loc[3]; }`
fn calls_and_arrays() -> (Prog, SymTab) {
    let add = Func {
        name: "add".to_string(),
        stmt: vec![BlockItem::Stmt(Stmt::Ret(Expr::Add(
            Box::new(id(vec![1, 2], "x")),
            Box::new(id(vec![1, 2], "y")),
        )))],
        params: vec![Param::new(vec![1, 2], "x".to_string()), Param::new(vec![1, 2], "y".to_string())],
    };
    let call = Expr::Unary(Unary::Call(Call {
        name: "add".to_string(),
        params: vec![id(vec![1, 3], "g"), index(vec![1], "arr", vec![1, 2])],
    }));
    let main = Func {
        name: "main".to_string(),
        stmt: vec![
            BlockItem::Decl(decl(vec![1, 3], "loc", vec![4], None)),
            BlockItem::Stmt(Stmt::Ret(Expr::Add(Box::new(call), Box::new(index(vec![1, 3], "loc", vec![3]))))),
        ],
        params: vec![],
    };
    let prog = Prog {
        funcs: vec![add, main],
        global_vars: vec![decl(vec![1], "g", vec![], Some(num(7))), decl(vec![1], "arr", vec![2, 3], None)],
    };
    let mut table = SymTab::init();
    table.put(vec![1], "g".to_string(), Symbol::new("g".to_string()));
    table.put(vec![1], "arr".to_string(), array_symbol("arr", vec![2, 3]));
    table.put(vec![1, 2], "x".to_string(), Symbol::new("x".to_string()));
    table.put(vec![1, 2], "y".to_string(), Symbol::new("y".to_string()));
    table.put(vec![1, 3], "loc".to_string(), array_symbol("loc", vec![4]));
    (prog, table)
}

#[test]
fn calls_globals_and_arrays_lowered() {
    let (prog, mut table) = calls_and_arrays();
    let ir = ast2ir(&prog, &mut table);
    assert_eq!(
        format!("{:?}", ir.funcs[0].stmts),
        "[Ref([1, 2], \"x\"), Ref([1, 2], \"y\"), Add(\"a1\", \"a0\", \"v0\"), Ret(\"v0\")]"
    );
    assert_eq!(
        format!("{:?}", ir.funcs[1].stmts),
        "[Alloc([1, 3], \"loc\", \"v1\", 16), LoadSymbol(\"v2\", \"g\"), Load([1], \"g\", \"v3\", \"v2\", 0), \
LoadSymbol(\"v4\", \"arr\"), Load([1], \"arr\", \"v5\", \"v4\", 20), Call([(\"v2\", \"a0\"), (\"v5\", \"a1\")], \"add\", \"v6\"), \
Load([1, 3], \"loc\", \"v7\", \"v1\", 12), Add(\"v7\", \"v6\", \"v8\"), Ret(\"v8\")]"
    );
    assert_eq!(format!("{:?}", ir.global_vars), "[DeclGlobal(\"g\", 7), DeclGlobalArray(\"arr\", [2, 3])]");
}

#[test]
fn calls_globals_and_arrays_allocated_and_emitted() {
    let (prog, mut table) = calls_and_arrays();
    let ir = ast2ir(&prog, &mut table);
    let q = op(&ir, &mut table);
    assert_eq!(
        format!("{:?}", q.funcs[0].stmts),
        "[Ref([1, 2], \"x\"), Ref([1, 2], \"y\"), Add(\"a1\", \"a0\", \"t0\"), Ret(\"t0\"), Param([1, 2], \"x\", \"add\"), Param([1, 2], \"y\", \"add\")]"
    );
    assert_eq!(
        format!("{:?}", q.funcs[1].stmts),
        "[Alloc([1, 3], \"loc\", \"t2\", 16), LoadSymbol(\"t3\", \"g\"), Load([1], \"g\", \"t4\", \"t3\", 0), \
LoadSymbol(\"t5\", \"arr\"), Load([1], \"arr\", \"t6\", \"t5\", 20), Call([(\"t6\", \"a0\"), (\"t5\", \"a1\")], \"add\", \"t7\"), \
Load([1, 3], \"loc\", \"t8\", \"t1\", 12), Add(\"t8\", \"t7\", \"t9\"), Ret(\"t9\")]"
    );
    let text = write_asm(&q, &table);
    assert!(text.contains(".data\n.align\t2\n.global g\ng:\n  .word 7\n.text\n  .comm arr,24,4\n.text\n.align\t1\n.global add\nadd:\n"));
    assert!(text.contains("  addi sp, sp, -16\n  addi t2, sp, 0\n  la t3, g\n  ld t4, 0(t3)\n  la t5, arr\n  ld t6, 20(t5)\n"));
    assert!(text.contains("  mv a0 ,t6\n  mv a1 ,t5\n  call add\n"));
    assert!(text.contains("  mv t7 ,a0\n  ld a0, 64(sp)\n  ld t8, 12(t1)\n  add t9 ,t7 ,t8\n  mv a0, t9\n"));
    assert!(text.ends_with("  addi sp, sp, 104\n  ret\n"));
}

/// `int main() { int i; for (i = 0; i < 3; i = i + 1) { if (i) break; }
/// while (i) { i = i - 1; continue; } return -(i); }`
fn loops() -> (Prog, SymTab) {
    let f = vec![1, 2];
    let i = || id(vec![1, 2], "i");
    let for_loop = Stmt::For(
        Some(Expr::Assign(Box::new(f.clone()), Box::new("i".to_string()), Box::new(num(0)))),
        Some(Expr::Lt(Box::new(i()), Box::new(num(3)))),
        Some(Expr::Assign(
            Box::new(f.clone()),
            Box::new("i".to_string()),
            Box::new(Expr::Add(Box::new(i()), Box::new(num(1)))),
        )),
        Box::new(Stmt::Block(vec![BlockItem::Stmt(Stmt::If(i(), Box::new(Stmt::Break), None))])),
    );
    let while_loop = Stmt::While(
        i(),
        Box::new(Stmt::Block(vec![
            assign(f.clone(), "i", Expr::Sub(Box::new(i()), Box::new(num(1)))),
            BlockItem::Stmt(Stmt::Continue),
        ])),
    );
    let ret = Stmt::Ret(Expr::Unary(Unary::Neg(Box::new(Unary::Primary(Box::new(i()))))));
    let prog = Prog {
        funcs: vec![Func {
            name: "main".to_string(),
            stmt: vec![
                BlockItem::Decl(decl(f.clone(), "i", vec![], None)),
                BlockItem::Stmt(for_loop),
                BlockItem::Stmt(while_loop),
                BlockItem::Stmt(ret),
            ],
            params: vec![],
        }],
        global_vars: vec![],
    };
    let mut table = SymTab::init();
    table.put(f, "i".to_string(), Symbol::new("i".to_string()));
    (prog, table)
}

#[test]
fn loops_lowered_and_allocated() {
    let (prog, mut table) = loops();
    let ir = ast2ir(&prog, &mut table);
    assert_eq!(
        format!("{:?}", ir.funcs[0].stmts),
        "[Ldc(0, \"v0\"), Assign([1, 2], \"i\", \"v0\"), Label(\"L2\"), Ref([1, 2], \"i\"), Ldc(3, \"v2\"), Lt(\"v2\", \"v1\", \"v3\"), \
Beq(\"v3\", \"L1\"), Ref([1, 2], \"i\"), Beq(\"v1\", \"L3\"), Jmp(\"L1\"), Label(\"L3\"), Label(\"L4\"), Ref([1, 2], \"i\"), \
Ldc(1, \"v4\"), Add(\"v4\", \"v1\", \"v5\"), Assign([1, 2], \"i\", \"v5\"), Jmp(\"L2\"), Label(\"L1\"), Label(\"L6\"), Label(\"L7\"), \
Ref([1, 2], \"i\"), Beq(\"v1\", \"L5\"), Ref([1, 2], \"i\"), Ldc(1, \"v6\"), Sub(\"v6\", \"v1\", \"v7\"), Assign([1, 2], \"i\", \"v7\"), \
Jmp(\"L7\"), Jmp(\"L6\"), Label(\"L5\"), Ref([1, 2], \"i\"), Neg(\"v1\", \"v8\"), Ret(\"v8\")]"
    );
    let q = op(&ir, &mut table);
    assert_eq!(
        format!("{:?}", q.funcs[0].stmts),
        "[Ldc(0, \"t0\"), Assign([1, 2], \"i\", \"t0\"), Label(\"L2\"), Ref([1, 2], \"i\"), Ldc(3, \"t2\"), Lt(\"t2\", \"t1\", \"t3\"), \
Beq(\"t3\", \"L1\"), Ref([1, 2], \"i\"), Beq(\"t1\", \"L3\"), Jmp(\"L1\"), Label(\"L3\"), Label(\"L4\"), Ref([1, 2], \"i\"), \
Ldc(1, \"t4\"), Add(\"t4\", \"t1\", \"t5\"), Assign([1, 2], \"i\", \"t5\"), Jmp(\"L2\"), Label(\"L1\"), Label(\"L6\"), Label(\"L7\"), \
Ref([1, 2], \"i\"), Beq(\"t1\", \"L5\"), Ref([1, 2], \"i\"), Ldc(1, \"t6\"), Sub(\"t6\", \"t1\", \"t7\"), Assign([1, 2], \"i\", \"t7\"), \
Jmp(\"L7\"), Jmp(\"L6\"), Label(\"L5\"), Ref([1, 2], \"i\"), Neg(\"t1\", \"t8\"), Ret(\"t8\")]"
    );
}

#[test]
fn continue_in_a_for_body_has_no_label_yet() {
    let f = vec![1, 2];
    let body = Stmt::Block(vec![BlockItem::Stmt(Stmt::Continue)]);
    let prog = Prog {
        funcs: vec![Func {
            name: "main".to_string(),
            stmt: vec![BlockItem::Stmt(Stmt::For(None, Some(num(1)), None, Box::new(body)))],
            params: vec![],
        }],
        global_vars: vec![],
    };
    let mut table = SymTab::init();
    table.put(f, "i".to_string(), Symbol::new("i".to_string()));
    assert!(!lowerable(&prog, &table));
    assert!(!table.get(&vec![1, 2], &"i".to_string()).alloc_virtual_reg);
}

#[test]
fn if_without_else_branches_before_the_then_part() {
    let ir = ir_of("int main() { int a = 1; if (a) a = 5; return a; }").unwrap();
    let beq = ir.find("Beq(").unwrap();
    let then = ir.find("Ldc(5,").unwrap();
    let label = ir.find("Label(\"L1\")").unwrap();
    assert!(beq < then && then < label);
    assert!(ir.contains("Beq(\"v1\", \"L1\")"));
}

#[test]
fn a_loop_inside_a_branch_ends_at_its_own_label() {
    let ir = ir_of("int main() { int a = 1; if (a) { while (a) a = 0; } return a; }").unwrap();
    assert!(ir.contains("Label(\"L3\"), Label(\"L4\")"));
    assert!(ir.contains("Jmp(\"L3\"), Label(\"L2\"), Label(\"L1\")"));
}
