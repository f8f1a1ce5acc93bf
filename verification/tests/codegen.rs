use buguc::codegen::{writable, write_asm};
use buguc::ir::{IrFunc, IrProg, IrStmt};
use buguc::symbols::{SymTab, Symbol};
use std::collections::VecDeque;

const HEADER: &str = ".attribute unaligned_access, 0\n.attribute stack_align, 16\n";
const PROLOGUE: &str = "  addi sp, sp, -88\n  sd s0, 0(sp)\n  sd s1, 8(sp)\n  sd s2, 16(sp)\n  sd s3, 24(sp)\n  sd s4, 32(sp)\n  sd s5, 40(sp)\n  sd s6, 48(sp)\n  sd s7, 56(sp)\n  sd s8, 64(sp)\n  sd s9, 72(sp)\n  sd s10, 80(sp)\n  sd s11, 88(sp)\n";
const RESTORE: &str = "  ld s0, 0(sp)\n  ld s1, 8(sp)\n  ld s2, 16(sp)\n  ld s3, 24(sp)\n  ld s4, 32(sp)\n  ld s5, 40(sp)\n  ld s6, 48(sp)\n  ld s7, 56(sp)\n  ld s8, 64(sp)\n  ld s9, 72(sp)\n  ld s10, 80(sp)\n  ld s11, 88(sp)\n";

fn s(x: &str) -> String {
    x.to_string()
}

fn one_func(stmts: Vec<IrStmt>) -> IrProg {
    IrProg { funcs: vec![IrFunc { name: s("f"), params: vec![], stmts }], global_vars: vec![] }
}

fn body_of(stmts: Vec<IrStmt>, table: &SymTab) -> Option<String> {
    let p = one_func(stmts);
    if !writable(&p, table) {
        return None;
    }
    let text = write_asm(&p, table);
    let start = format!("{}.text\n.align\t1\n.global f\nf:\n{}", HEADER, PROLOGUE);
    assert!(text.starts_with(&start));
    Some(text[start.len()..].to_string())
}

#[test]
fn empty_program_is_the_header() {
    let p = IrProg { funcs: vec![], global_vars: vec![] };
    assert_eq!(write_asm(&p, &SymTab::init()), HEADER);
}

#[test]
fn global_word_and_array() {
    let p = IrProg {
        funcs: vec![],
        global_vars: vec![
            IrStmt::DeclGlobal(s("g"), -5),
            IrStmt::DeclGlobalArray(s("arr"), VecDeque::from(vec![2, 3])),
        ],
    };
    assert_eq!(
        write_asm(&p, &SymTab::init()),
        format!("{}.data\n.align\t2\n.global g\ng:\n  .word -5\n.text\n  .comm arr,24,4\n", HEADER)
    );
}

#[test]
fn global_array_too_large() {
    let p = IrProg {
        funcs: vec![],
        global_vars: vec![IrStmt::DeclGlobalArray(s("big"), VecDeque::from(vec![65536, 65536]))],
    };
    assert!(!writable(&p, &SymTab::init()));
}

#[test]
fn global_of_another_kind() {
    let p = IrProg { funcs: vec![], global_vars: vec![IrStmt::Jmp(s("L1"))] };
    assert!(!writable(&p, &SymTab::init()));
}

#[test]
fn return_restores_the_stack() {
    let t = SymTab::init();
    let b = body_of(vec![IrStmt::Ldc(7, s("t0")), IrStmt::Ret(s("t0"))], &t).unwrap();
    assert_eq!(b, format!("  li t0, 7\n  mv a0, t0\n{}  addi sp, sp, 88\n  ret\n", RESTORE));
}

#[test]
fn arrays_grow_the_frame_that_return_gives_back() {
    let t = SymTab::init();
    let b = body_of(
        vec![
            IrStmt::Alloc(vec![1, 2], s("a"), s("t0"), 40),
            IrStmt::Alloc(vec![1, 2], s("b"), s("t1"), 8),
            IrStmt::Ret(s("t1")),
        ],
        &t,
    )
    .unwrap();
    assert_eq!(
        b,
        format!(
            "  addi sp, sp, -40\n  addi t0, sp, 0\n  addi sp, sp, -8\n  addi t1, sp, 0\n  mv a0, t1\n{}  addi sp, sp, 136\n  ret\n",
            RESTORE
        )
    );
}

#[test]
fn assignment_moves_into_the_variable_register() {
    let mut t = SymTab::init();
    let mut x = Symbol::new(s("x"));
    x.reg = Some(s("t4"));
    t.put(vec![1, 2], s("x"), x);
    let b = body_of(vec![IrStmt::Assign(vec![1, 2], s("x"), s("t1"))], &t).unwrap();
    assert_eq!(b, "  mv t4 ,t1\n");
}

#[test]
fn assignment_to_a_variable_without_register() {
    let mut t = SymTab::init();
    t.put(vec![1, 2], s("x"), Symbol::new(s("x")));
    assert!(body_of(vec![IrStmt::Assign(vec![1, 2], s("x"), s("t1"))], &t).is_none());
    assert!(body_of(vec![IrStmt::Assign(vec![1, 2], s("y"), s("t1"))], &t).is_none());
}

#[test]
fn arithmetic_instructions() {
    let t = SymTab::init();
    let b = body_of(
        vec![
            IrStmt::Add(s("t1"), s("t2"), s("t3")),
            IrStmt::Sub(s("t1"), s("t2"), s("t3")),
            IrStmt::Mul(s("t1"), s("t2"), s("t3")),
            IrStmt::Div(s("t1"), s("t2"), s("t3")),
            IrStmt::Mod(s("t1"), s("t2"), s("t3")),
            IrStmt::Neg(s("t1"), s("t2")),
        ],
        &t,
    )
    .unwrap();
    assert_eq!(
        b,
        "  add t3 ,t2 ,t1\n  sub t3 ,t2 ,t1\n  mul t3 ,t2 ,t1\n  div t3 ,t2 ,t1\n  mod t3 ,t2 ,t1\n  neg t2 , t1\n"
    );
}

#[test]
fn logic_and_comparison_instructions() {
    let t = SymTab::init();
    let b = body_of(
        vec![
            IrStmt::Or(s("a"), s("b"), s("c")),
            IrStmt::And(s("a"), s("b"), s("c")),
            IrStmt::Equal(s("a"), s("b"), s("c"), s("d")),
            IrStmt::NotEqual(s("a"), s("b"), s("c"), s("d")),
            IrStmt::Lt(s("a"), s("b"), s("c")),
            IrStmt::Gt(s("a"), s("b"), s("c")),
        ],
        &t,
    )
    .unwrap();
    assert_eq!(
        b,
        "  or c ,b ,a\n  snez c ,c\n  snez c ,b\n  sub c ,zero\n  and c ,c ,a\n  snez c ,c\n  sub c ,b ,a\n  seqz d ,c\n  sub c ,b ,a\n  snez d ,c\n  slt c ,b ,a\n  sgt c ,b ,a\n"
    );
}

#[test]
fn less_or_equal_and_greater_or_equal() {
    let t = SymTab::init();
    let b = body_of(
        vec![
            IrStmt::Let(s("a"), s("b"), s("c"), s("d"), s("e"), s("f")),
            IrStmt::Get(s("a"), s("b"), s("c"), s("d"), s("e"), s("f")),
        ],
        &t,
    )
    .unwrap();
    assert_eq!(
        b,
        "  sub c ,b ,a\n  seqz d ,c\n  slt e ,b ,a\n  or f ,d ,e\n  snez f ,f\n  sub c ,b ,a\n  seqz d ,c\n  sgt e ,b ,a\n  or f ,d ,e\n  snez f ,f\n"
    );
}

#[test]
fn jumps_labels_and_memory() {
    let t = SymTab::init();
    let b = body_of(
        vec![
            IrStmt::Beq(s("t1"), s("L1")),
            IrStmt::Jmp(s("L2")),
            IrStmt::Label(s("L1")),
            IrStmt::Load(vec![1], s("g"), s("t2"), s("t3"), 12),
            IrStmt::LoadSymbol(s("t3"), s("g")),
            IrStmt::Ref(vec![1, 2], s("x")),
            IrStmt::Param(vec![1, 2], s("x"), s("f")),
        ],
        &t,
    )
    .unwrap();
    assert_eq!(b, "  beqz t1 ,L1\n  j L2\nL1:\n  ld t2, 12(t3)\n  la t3, g\n");
}

#[test]
fn call_saves_and_restores_registers() {
    let t = SymTab::init();
    let b = body_of(
        vec![IrStmt::Call(vec![(s("t1"), s("a0")), (s("t2"), s("a1"))], s("g"), s("t5"))],
        &t,
    )
    .unwrap();
    let save = "  addi sp, sp, -120\n  sd ra, 0(sp)\n  sd t0, 8(sp)\n  sd t1, 16(sp)\n  sd t2, 24(sp)\n  sd t3, 32(sp)\n  sd t4, 40(sp)\n  sd t5, 48(sp)\n  sd t6, 56(sp)\n  sd a0, 64(sp)\n  sd a1, 72(sp)\n  sd a2, 80(sp)\n  sd a3, 88(sp)\n  sd a4, 96(sp)\n  sd a5, 104(sp)\n  sd a6, 112(sp)\n  sd a7, 120(sp)\n";
    let restore = "  ld ra, 0(sp)\n  ld t0, 8(sp)\n  ld t1, 16(sp)\n  ld t2, 24(sp)\n  ld t3, 32(sp)\n  ld t4, 40(sp)\n  ld t5, 48(sp)\n  ld t6, 56(sp)\n  ld a1, 72(sp)\n  ld a2, 80(sp)\n  ld a3, 88(sp)\n  ld a4, 96(sp)\n  ld a5, 104(sp)\n  ld a6, 112(sp)\n  ld a7, 120(sp)\n  addi sp, sp, 120\n";
    assert_eq!(
        b,
        format!("{}  mv a0 ,t1\n  mv a1 ,t2\n  call g\n{}  mv t5 ,a0\n  ld a0, 64(sp)\n", save, restore)
    );
}

#[test]
fn global_declaration_inside_a_function() {
    let t = SymTab::init();
    assert!(body_of(vec![IrStmt::DeclGlobal(s("g"), 1)], &t).is_none());
}
