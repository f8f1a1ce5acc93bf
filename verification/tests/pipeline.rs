use buguc::{compile, CompileError};

const HEADER: &str = ".attribute unaligned_access, 0\n.attribute stack_align, 16\n";
const PROLOGUE: &str = "  addi sp, sp, -88\n  sd s0, 0(sp)\n  sd s1, 8(sp)\n  sd s2, 16(sp)\n  sd s3, 24(sp)\n  sd s4, 32(sp)\n  sd s5, 40(sp)\n  sd s6, 48(sp)\n  sd s7, 56(sp)\n  sd s8, 64(sp)\n  sd s9, 72(sp)\n  sd s10, 80(sp)\n  sd s11, 88(sp)\n";
const RESTORE: &str = "  ld s0, 0(sp)\n  ld s1, 8(sp)\n  ld s2, 16(sp)\n  ld s3, 24(sp)\n  ld s4, 32(sp)\n  ld s5, 40(sp)\n  ld s6, 48(sp)\n  ld s7, 56(sp)\n  ld s8, 64(sp)\n  ld s9, 72(sp)\n  ld s10, 80(sp)\n  ld s11, 88(sp)\n";

#[test]
fn compiles_a_return_of_a_constant() {
    let c = compile("int main() { return 2; }".to_string()).unwrap();
    assert_eq!(
        c.assembly,
        format!(
            "{}.text\n.align\t1\n.global main\nmain:\n{}  li t0, 2\n  mv a0, t0\n{}  addi sp, sp, 88\n  ret\n",
            HEADER, PROLOGUE, RESTORE
        )
    );
    assert_eq!(c.tokens.len(), 9);
    assert_eq!(format!("{:?}", c.optimized.funcs[0].stmts), "[Ldc(2, \"t0\"), Ret(\"t0\")]");
}

#[test]
fn compiles_arithmetic_on_variables() {
    let c = compile("int main() { int a = 3; int b; b = a + 4 * 2; return b; }".to_string()).unwrap();
    assert_eq!(
        format!("{:?}", c.optimized.funcs[0].stmts),
        "[Ldc(3, \"t0\"), Assign([1, 2], \"a\", \"t0\"), Ref([1, 2], \"a\"), Ldc(4, \"t2\"), Ldc(2, \"t3\"), Mul(\"t3\", \"t2\", \"t4\"), Add(\"t4\", \"t1\", \"t5\"), Assign([1, 2], \"b\", \"t5\"), Ref([1, 2], \"b\"), Ret(\"t6\")]"
    );
    assert!(c.assembly.contains("  li t0, 3\n  mv t1 ,t0\n"));
    assert!(c.assembly.contains("  mul t4 ,t2 ,t3\n  add t5 ,t1 ,t4\n"));
}

#[test]
fn stops_at_a_character_that_starts_no_token() {
    assert!(matches!(compile("int main() { a @ b; }".to_string()), Err(CompileError::Lex)));
}

#[test]
fn stops_at_a_number_out_of_range() {
    assert!(matches!(compile("int main() { return 99999999999; }".to_string()), Err(CompileError::Lex)));
}

#[test]
fn reports_where_parsing_stopped() {
    match compile("int main() { return 2 }".to_string()) {
        Err(CompileError::Parse(e)) => {
            assert_eq!(e.pos, 7);
            assert_eq!(e.msg, "Semicolon expected , actual RightBrace");
        }
        _ => panic!("expected a parse error"),
    }
}

#[test]
fn stops_at_an_undeclared_variable() {
    assert!(matches!(compile("int main() { return x; }".to_string()), Err(CompileError::Ir)));
}

#[test]
fn stops_when_the_temporaries_run_out() {
    assert!(matches!(
        compile("int main() { return 1 <= 2 && 3 >= 4; }".to_string()),
        Err(CompileError::Dataflow)
    ));
}

#[test]
fn ignores_what_follows_the_function() {
    let a = compile("int main() { return 2; } trailing tokens".to_string()).unwrap();
    let b = compile("int main() { return 2; }".to_string()).unwrap();
    assert_eq!(a.assembly, b.assembly);
    assert_eq!(a.tokens.len(), 11);
}

#[test]
fn stops_at_an_assignment_to_an_undeclared_variable() {
    assert!(matches!(compile("int main() { x = 1; return 0; }".to_string()), Err(CompileError::Codegen)));
}

#[test]
fn ra_1() {
    let c = compile(
        "int gcd(int a, int b) {
                                while (a != 0) {
                                    int c;
                                    c = b % a;
                                    b = a;
                                    a = 1;
                                    a = 2;
                                    a = c;
                                }
                                return b;
                            }"
        .to_string(),
    )
    .unwrap();
    assert_eq!(
        format!("{:?}", c.optimized.funcs[0].stmts),
        "[Label(\"L2\"), Label(\"L3\"), Ref([1, 2], \"a\"), Ldc(0, \"t0\"), NotEqual(\"t0\", \"a0\", \"t1\", \"t2\"), Beq(\"t2\", \"L1\"), \
Ref([1, 2], \"b\"), Ref([1, 2], \"a\"), Mod(\"a0\", \"a1\", \"t3\"), Assign([1, 2, 3], \"c\", \"t3\"), Ref([1, 2], \"a\"), \
Assign([1, 2], \"b\", \"a0\"), Ldc(1, \"t5\"), Assign([1, 2], \"a\", \"t5\"), Ldc(2, \"t6\"), Assign([1, 2], \"a\", \"t6\"), \
Ref([1, 2, 3], \"c\"), Assign([1, 2], \"a\", \"t4\"), Jmp(\"L2\"), Label(\"L1\"), Ref([1, 2], \"b\"), Ret(\"a1\"), \
Param([1, 2], \"a\", \"gcd\"), Param([1, 2], \"b\", \"gcd\")]"
    );
    assert!(c.assembly.contains(".global gcd\ngcd:\n"));
    assert!(c.assembly.contains(
        "L2:\nL3:\n  li t0, 0\n  sub t1 ,a0 ,t0\n  snez t2 ,t1\n  beqz t2 ,L1\n  mod t3 ,a1 ,a0\n  mv t4 ,t3\n  mv a1 ,a0\n"
    ));
    assert!(c.assembly.contains("  mv a0 ,t4\n  j L2\nL1:\n  mv a0, a1\n"));
}
