//! Emits RISC-V assembly text for a program in the intermediate representation.
use vstd::prelude::*;
use crate::ir::{IrStmt, IrStmtV, IrProg, IrProgV, IrFunc, IrFuncV, Str, SymMap, stmts_view, ir_funcs_view, pairs_view, checked_mul_all, product};
use crate::symbols::SymTab;
use crate::text::{dec_nat, dec_int, push_u64, push_i64};

verus! {

broadcast use crate::seqs::group_concat;

/// The text before the first function and global.
pub open spec fn header() -> Seq<char> {
    ".attribute unaligned_access, 0\n.attribute stack_align, 16\n"@
}

/// Saves the callee-saved registers on entry to a function.
pub open spec fn prologue() -> Seq<char> {
    "  addi sp, sp, -88\n  sd s0, 0(sp)\n  sd s1, 8(sp)\n  sd s2, 16(sp)\n  sd s3, 24(sp)\n  sd s4, 32(sp)\n  sd s5, 40(sp)\n  sd s6, 48(sp)\n  sd s7, 56(sp)\n  sd s8, 64(sp)\n  sd s9, 72(sp)\n  sd s10, 80(sp)\n  sd s11, 88(sp)\n"@
}

/// Restores the callee-saved registers before a return.
pub open spec fn restore() -> Seq<char> {
    "  ld s0, 0(sp)\n  ld s1, 8(sp)\n  ld s2, 16(sp)\n  ld s3, 24(sp)\n  ld s4, 32(sp)\n  ld s5, 40(sp)\n  ld s6, 48(sp)\n  ld s7, 56(sp)\n  ld s8, 64(sp)\n  ld s9, 72(sp)\n  ld s10, 80(sp)\n  ld s11, 88(sp)\n"@
}

/// Saves the caller-saved registers before a call.
pub open spec fn call_save() -> Seq<char> {
    "  addi sp, sp, -120\n  sd ra, 0(sp)\n  sd t0, 8(sp)\n  sd t1, 16(sp)\n  sd t2, 24(sp)\n  sd t3, 32(sp)\n  sd t4, 40(sp)\n  sd t5, 48(sp)\n  sd t6, 56(sp)\n  sd a0, 64(sp)\n  sd a1, 72(sp)\n  sd a2, 80(sp)\n  sd a3, 88(sp)\n  sd a4, 96(sp)\n  sd a5, 104(sp)\n  sd a6, 112(sp)\n  sd a7, 120(sp)\n"@
}

/// Restores the caller-saved registers after a call (`a0` last, apart).
pub open spec fn call_restore() -> Seq<char> {
    "  ld ra, 0(sp)\n  ld t0, 8(sp)\n  ld t1, 16(sp)\n  ld t2, 24(sp)\n  ld t3, 32(sp)\n  ld t4, 40(sp)\n  ld t5, 48(sp)\n  ld t6, 56(sp)\n  ld a1, 72(sp)\n  ld a2, 80(sp)\n  ld a3, 88(sp)\n  ld a4, 96(sp)\n  ld a5, 104(sp)\n  ld a6, 112(sp)\n  ld a7, 120(sp)\n  addi sp, sp, 120\n"@
}

fn header_str() -> (r: &'static str)
    ensures
        r@ == header(),
{
    ".attribute unaligned_access, 0\n.attribute stack_align, 16\n"
}

fn prologue_str() -> (r: &'static str)
    ensures
        r@ == prologue(),
{
    "  addi sp, sp, -88\n  sd s0, 0(sp)\n  sd s1, 8(sp)\n  sd s2, 16(sp)\n  sd s3, 24(sp)\n  sd s4, 32(sp)\n  sd s5, 40(sp)\n  sd s6, 48(sp)\n  sd s7, 56(sp)\n  sd s8, 64(sp)\n  sd s9, 72(sp)\n  sd s10, 80(sp)\n  sd s11, 88(sp)\n"
}

fn restore_str() -> (r: &'static str)
    ensures
        r@ == restore(),
{
    "  ld s0, 0(sp)\n  ld s1, 8(sp)\n  ld s2, 16(sp)\n  ld s3, 24(sp)\n  ld s4, 32(sp)\n  ld s5, 40(sp)\n  ld s6, 48(sp)\n  ld s7, 56(sp)\n  ld s8, 64(sp)\n  ld s9, 72(sp)\n  ld s10, 80(sp)\n  ld s11, 88(sp)\n"
}

fn call_save_str() -> (r: &'static str)
    ensures
        r@ == call_save(),
{
    "  addi sp, sp, -120\n  sd ra, 0(sp)\n  sd t0, 8(sp)\n  sd t1, 16(sp)\n  sd t2, 24(sp)\n  sd t3, 32(sp)\n  sd t4, 40(sp)\n  sd t5, 48(sp)\n  sd t6, 56(sp)\n  sd a0, 64(sp)\n  sd a1, 72(sp)\n  sd a2, 80(sp)\n  sd a3, 88(sp)\n  sd a4, 96(sp)\n  sd a5, 104(sp)\n  sd a6, 112(sp)\n  sd a7, 120(sp)\n"
}

fn call_restore_str() -> (r: &'static str)
    ensures
        r@ == call_restore(),
{
    "  ld ra, 0(sp)\n  ld t0, 8(sp)\n  ld t1, 16(sp)\n  ld t2, 24(sp)\n  ld t3, 32(sp)\n  ld t4, 40(sp)\n  ld t5, 48(sp)\n  ld t6, 56(sp)\n  ld a1, 72(sp)\n  ld a2, 80(sp)\n  ld a3, 88(sp)\n  ld a4, 96(sp)\n  ld a5, 104(sp)\n  ld a6, 112(sp)\n  ld a7, 120(sp)\n  addi sp, sp, 120\n"
}

/// The `mv` instructions that pass a call's arguments: each value goes to its
/// argument register.
pub open spec fn arg_moves(regs: Seq<(Str, Str)>) -> Seq<char>
    decreases regs.len(),
{
    if regs.len() == 0 {
        Seq::empty()
    } else {
        arg_moves(regs.drop_last()) + ("  mv "@ + regs.last().1 + " ,"@ + regs.last().0 + "\n"@)
    }
}

/// Three-register instruction `op d ,s1 ,s2`.
pub open spec fn ins3(op: Seq<char>, d: Str, s1: Str, s2: Str) -> Seq<char> {
    op + d + " ,"@ + s1 + " ,"@ + s2 + "\n"@
}

/// Two-register instruction `op d ,s`.
pub open spec fn ins2(op: Seq<char>, d: Str, s: Str) -> Seq<char> {
    op + d + " ,"@ + s + "\n"@
}

/// The text of an arithmetic or comparison statement.
pub open spec fn asm_arith(s: IrStmtV) -> Seq<char> {
    match s {
        IrStmtV::Add(t1, t2, t) => ins3("  add "@, t, t2, t1),
        IrStmtV::Sub(t1, t2, t) => ins3("  sub "@, t, t2, t1),
        IrStmtV::Div(t1, t2, t) => ins3("  div "@, t, t2, t1),
        IrStmtV::Mod(t1, t2, t) => ins3("  mod "@, t, t2, t1),
        IrStmtV::Mul(t1, t2, t) => ins3("  mul "@, t, t2, t1),
        IrStmtV::Or(t1, t2, t) => ins3("  or "@, t, t2, t1) + ins2("  snez "@, t, t),
        IrStmtV::And(t1, t2, t) => ins2("  snez "@, t, t2) + ins2("  sub "@, t, "zero"@) + ins3("  and "@, t, t, t1)
            + ins2("  snez "@, t, t),
        IrStmtV::Equal(t1, t2, t, t3) => ins3("  sub "@, t, t2, t1) + ins2("  seqz "@, t3, t),
        IrStmtV::NotEqual(t1, t2, t, t3) => ins3("  sub "@, t, t2, t1) + ins2("  snez "@, t3, t),
        IrStmtV::Lt(t1, t2, t) => ins3("  slt "@, t, t2, t1),
        IrStmtV::Let(t1, t2, t, t3, t4, t5) => ins3("  sub "@, t, t2, t1) + ins2("  seqz "@, t3, t) + ins3(
            "  slt "@,
            t4,
            t2,
            t1,
        ) + ins3("  or "@, t5, t3, t4) + ins2("  snez "@, t5, t5),
        IrStmtV::Gt(t1, t2, t) => ins3("  sgt "@, t, t2, t1),
        IrStmtV::Get(t1, t2, t, t3, t4, t5) => ins3("  sub "@, t, t2, t1) + ins2("  seqz "@, t3, t) + ins3(
            "  sgt "@,
            t4,
            t2,
            t1,
        ) + ins3("  or "@, t5, t3, t4) + ins2("  snez "@, t5, t5),
        _ => Seq::empty(),
    }
}

pub open spec fn is_arith(s: IrStmtV) -> bool {
    ||| s is Add
    ||| s is Sub
    ||| s is Div
    ||| s is Mod
    ||| s is Mul
    ||| s is Or
    ||| s is And
    ||| s is Equal
    ||| s is NotEqual
    ||| s is Lt
    ||| s is Let
    ||| s is Gt
    ||| s is Get
}

/// The text of one statement of a function, given the stack space that the
/// function's arrays took so far; with the new total. `None` where an
/// assignment's variable has no register, the stack size overflows, or the
/// statement cannot stand in a function.
pub open spec fn asm_stmt(s: IrStmtV, alloc: nat, table: SymMap) -> Option<(nat, Seq<char>)> {
    match s {
        IrStmtV::Neg(t1, t2) => Some((alloc, "  neg "@ + t2 + " , "@ + t1 + "\n"@)),
        IrStmtV::Ldc(x, t) => Some((alloc, "  li "@ + t + ", "@ + dec_int(x as int) + "\n"@)),
        IrStmtV::Ret(t) => if alloc + 88 <= u32::MAX {
            Some((
                alloc,
                "  mv a0, "@ + t + "\n"@ + restore() + "  addi sp, sp, "@ + dec_nat(alloc + 88) + "\n"@ + "  ret\n"@,
            ))
        } else {
            None
        },
        IrStmtV::Assign(scope, id, t2) => if table.contains_key((scope, id)) {
            match table[(scope, id)].reg {
                Some(r) => Some((alloc, "  mv "@ + r + " ,"@ + t2 + "\n"@)),
                None => None,
            }
        } else {
            None
        },
        IrStmtV::Ref(..) => Some((alloc, Seq::empty())),
        IrStmtV::Beq(t, l) => Some((alloc, "  beqz "@ + t + " ,"@ + l + "\n"@)),
        IrStmtV::Jmp(l) => Some((alloc, "  j "@ + l + "\n"@)),
        IrStmtV::Label(l) => Some((alloc, l + ":\n"@)),
        IrStmtV::Param(..) => Some((alloc, Seq::empty())),
        IrStmtV::Call(regs, label, r) => Some((
            alloc,
            call_save() + arg_moves(regs) + "  call "@ + label + "\n"@ + call_restore() + "  mv "@ + r + " ,a0\n"@
                + "  ld a0, 64(sp)\n"@,
        )),
        IrStmtV::Load(_, _, reg, base, offset) => Some((
            alloc,
            "  ld "@ + reg + ", "@ + dec_nat(offset as nat) + "("@ + base + ")\n"@,
        )),
        IrStmtV::LoadSymbol(reg, vn) => Some((alloc, "  la "@ + reg + ", "@ + vn + "\n"@)),
        IrStmtV::Alloc(_, _, reg, size) => if alloc + size <= u32::MAX {
            Some((
                (alloc + size) as nat,
                "  addi sp, sp, -"@ + dec_nat(size as nat) + "\n"@ + "  addi "@ + reg + ", sp, 0\n"@,
            ))
        } else {
            None
        },
        IrStmtV::DeclGlobal(..) => None,
        IrStmtV::DeclGlobalArray(..) => None,
        _ => Some((alloc, asm_arith(s))),
    }
}

fn put(out: &mut String, s: &str)
    ensures
        final(out)@ == old(out)@ + s@,
{
    out.append(s);
}

fn ins3_exec(out: &mut String, op: &str, d: &String, s1: &String, s2: &String)
    ensures
        final(out)@ == old(out)@ + ins3(op@, d@, s1@, s2@),
{
    put(out, op);
    put(out, d.as_str());
    put(out, " ,");
    put(out, s1.as_str());
    put(out, " ,");
    put(out, s2.as_str());
    put(out, "\n");
}

fn ins2_exec(out: &mut String, op: &str, d: &String, s: &String)
    ensures
        final(out)@ == old(out)@ + ins2(op@, d@, s@),
{
    put(out, op);
    put(out, d.as_str());
    put(out, " ,");
    put(out, s.as_str());
    put(out, "\n");
}

fn arith_exec(out: &mut String, s: &IrStmt)
    requires
        is_arith(s@),
    ensures
        final(out)@ == old(out)@ + asm_arith(s@),
{
    match s {
        IrStmt::Add(t1, t2, t) => ins3_exec(out, "  add ", t, t2, t1),
        IrStmt::Sub(t1, t2, t) => ins3_exec(out, "  sub ", t, t2, t1),
        IrStmt::Div(t1, t2, t) => ins3_exec(out, "  div ", t, t2, t1),
        IrStmt::Mod(t1, t2, t) => ins3_exec(out, "  mod ", t, t2, t1),
        IrStmt::Mul(t1, t2, t) => ins3_exec(out, "  mul ", t, t2, t1),
        IrStmt::Or(t1, t2, t) => {
            // or t3,t1,t2 ; snez t3,t3
            ins3_exec(out, "  or ", t, t2, t1);
            ins2_exec(out, "  snez ", t, t);
        },
        IrStmt::And(t1, t2, t) => {
            // snez d, s1; sub d, zero, d; and d, d, s2; snez d, d;
            ins2_exec(out, "  snez ", t, t2);
            let zero = String::from_str("zero");
            ins2_exec(out, "  sub ", t, &zero);
            ins3_exec(out, "  and ", t, t, t1);
            ins2_exec(out, "  snez ", t, t);
        },
        IrStmt::Equal(t1, t2, t, t3) => {
            ins3_exec(out, "  sub ", t, t2, t1);
            ins2_exec(out, "  seqz ", t3, t);
        },
        IrStmt::NotEqual(t1, t2, t, t3) => {
            ins3_exec(out, "  sub ", t, t2, t1);
            ins2_exec(out, "  snez ", t3, t);
        },
        IrStmt::Lt(t1, t2, t) => ins3_exec(out, "  slt ", t, t2, t1),
        IrStmt::Let(t1, t2, t, t3, t4, t5) => {
            // eq
            ins3_exec(out, "  sub ", t, t2, t1);
            ins2_exec(out, "  seqz ", t3, t);
            // lt
            ins3_exec(out, "  slt ", t4, t2, t1);
            // or
            ins3_exec(out, "  or ", t5, t3, t4);
            ins2_exec(out, "  snez ", t5, t5);
        },
        IrStmt::Gt(t1, t2, t) => ins3_exec(out, "  sgt ", t, t2, t1),
        IrStmt::Get(t1, t2, t, t3, t4, t5) => {
            // eq
            ins3_exec(out, "  sub ", t, t2, t1);
            ins2_exec(out, "  seqz ", t3, t);
            // gt
            ins3_exec(out, "  sgt ", t4, t2, t1);
            // or
            ins3_exec(out, "  or ", t5, t3, t4);
            ins2_exec(out, "  snez ", t5, t5);
        },
        _ => {},
    }
}

fn arg_moves_exec(out: &mut String, regs: &Vec<(String, String)>)
    ensures
        final(out)@ == old(out)@ + arg_moves(pairs_view(regs@)),
{
    let ghost o0 = out@;
    let ghost rv = pairs_view(regs@);
    let mut i: usize = 0;
    assert(rv.subrange(0, 0) =~= Seq::<(Str, Str)>::empty());
    while i < regs.len()
        invariant
            i <= regs@.len(),
            rv == pairs_view(regs@),
            out@ == o0 + arg_moves(rv.subrange(0, i as int)),
        decreases regs@.len() - i,
    {
        assert(rv.subrange(0, i + 1).drop_last() =~= rv.subrange(0, i as int));
        assert(rv.subrange(0, i + 1).last() == (regs@[i as int].0@, regs@[i as int].1@));
        let pair = &regs[i];
        put(out, "  mv ");
        put(out, pair.1.as_str());
        put(out, " ,");
        put(out, pair.0.as_str());
        put(out, "\n");
        i = i + 1;
    }
    assert(rv.subrange(0, i as int) =~= rv);
}

/// Emits one statement of a function.
#[verifier::spinoff_prover]
fn asm_stmt_exec(out: &mut String, s: &IrStmt, alloc_size: u32, table: &SymTab) -> (r: Option<u32>)
    ensures
        match asm_stmt(s@, alloc_size as nat, table@) {
            Some((a, text)) => r == Some(a as u32) && final(out)@ == old(out)@ + text,
            None => r is None,
        },
{
    match s {
        IrStmt::Neg(t1, t2) => {
            put(out, "  neg ");
            put(out, t2.as_str());
            put(out, " , ");
            put(out, t1.as_str());
            put(out, "\n");
        },
        IrStmt::Ldc(x, t) => {
            put(out, "  li ");
            put(out, t.as_str());
            put(out, ", ");
            push_i64(out, *x as i64);
            put(out, "\n");
        },
        IrStmt::Ret(t) => {
            if alloc_size > u32::MAX - 88 {
                return None;
            }
            put(out, "  mv a0, ");
            put(out, t.as_str());
            put(out, "\n");
            put(out, restore_str());
            put(out, "  addi sp, sp, ");
            push_u64(out, (alloc_size + 88) as u64);
            put(out, "\n");
            put(out, "  ret\n");
        },
        IrStmt::Assign(scope, id, t2) => {
            let reg = match table.entry(scope, id) {
                Some(sym) => match &sym.reg {
                    Some(r) => r,
                    None => {
                        return None;
                    },
                },
                None => {
                    return None;
                },
            };
            put(out, "  mv ");
            put(out, reg.as_str());
            put(out, " ,");
            put(out, t2.as_str());
            put(out, "\n");
        },
        IrStmt::Ref(_scope, _id) => {
            // use
        },
        IrStmt::Beq(t, l) => {
            put(out, "  beqz ");
            put(out, t.as_str());
            put(out, " ,");
            put(out, l.as_str());
            put(out, "\n");
        },
        IrStmt::Jmp(l) => {
            put(out, "  j ");
            put(out, l.as_str());
            put(out, "\n");
        },
        IrStmt::Label(label) => {
            put(out, label.as_str());
            put(out, ":\n");
        },
        IrStmt::Param(_, _, _) => {
            // args are in a0-a7
        },
        IrStmt::Call(regs, label, r) => {
            put(out, call_save_str());
            // args
            arg_moves_exec(out, regs);
            // call f
            put(out, "  call ");
            put(out, label.as_str());
            put(out, "\n");
            put(out, call_restore_str());
            // return: tx = a0
            put(out, "  mv ");
            put(out, r.as_str());
            put(out, " ,a0\n");
            put(out, "  ld a0, 64(sp)\n");
        },
        IrStmt::Load(_, _, reg, base, offset) => {
            put(out, "  ld ");
            put(out, reg.as_str());
            put(out, ", ");
            push_u64(out, *offset as u64);
            put(out, "(");
            put(out, base.as_str());
            put(out, ")\n");
        },
        IrStmt::LoadSymbol(reg, vn) => {
            put(out, "  la ");
            put(out, reg.as_str());
            put(out, ", ");
            put(out, vn.as_str());
            put(out, "\n");
        },
        IrStmt::Alloc(_, _, reg, size) => {
            if alloc_size > u32::MAX - *size {
                return None;
            }
            put(out, "  addi sp, sp, -");
            push_u64(out, *size as u64);
            put(out, "\n");
            put(out, "  addi ");
            put(out, reg.as_str());
            put(out, ", sp, 0\n");
            return Some(alloc_size + *size);
        },
        IrStmt::DeclGlobal(..) | IrStmt::DeclGlobalArray(..) => {
            return None;
        },
        _ => {
            arith_exec(out, s);
        },
    }
    Some(alloc_size)
}

/// The text of a statement of a program's globals: a word for a variable,
/// common storage of `4 * d1 * d2 * ...` bytes for an array. `None` where that
/// size leaves `i32`, or the statement is no global declaration.
pub open spec fn asm_global(g: IrStmtV) -> Option<Seq<char>> {
    match g {
        IrStmtV::DeclGlobal(vn, val) => Some(
            ".data\n.align\t2\n.global "@ + vn + "\n"@ + vn + ":\n  .word "@ + dec_int(val as int) + "\n"@,
        ),
        IrStmtV::DeclGlobalArray(vn, indexes) => match checked_mul_all(4, indexes) {
            Some(memory) => Some(".text\n  .comm "@ + vn + ","@ + dec_int(memory) + ",4\n"@),
            None => None,
        },
        _ => None,
    }
}

/// The text of all globals, in order; `None` if one of them has none.
pub open spec fn asm_globals(gs: Seq<IrStmtV>) -> Option<Seq<char>>
    decreases gs.len(),
{
    if gs.len() == 0 {
        Some(Seq::empty())
    } else {
        match asm_globals(gs.drop_last()) {
            Some(t) => match asm_global(gs.last()) {
                Some(u) => Some(t + u),
                None => None,
            },
            None => None,
        }
    }
}

/// The text of a function body, statement after statement, with the stack
/// space its arrays took; `None` if one statement has none.
pub open spec fn asm_stmts(ss: Seq<IrStmtV>, table: SymMap) -> Option<(nat, Seq<char>)>
    decreases ss.len(),
{
    if ss.len() == 0 {
        Some((0, Seq::empty()))
    } else {
        match asm_stmts(ss.drop_last(), table) {
            Some((a, t)) => match asm_stmt(ss.last(), a, table) {
                Some((a2, u)) => Some((a2, t + u)),
                None => None,
            },
            None => None,
        }
    }
}

/// The text of a function: its label, the prologue and its body.
pub open spec fn asm_func(f: IrFuncV, table: SymMap) -> Option<Seq<char>> {
    match asm_stmts(f.stmts, table) {
        Some((_, body)) => Some(".text\n.align\t1\n.global "@ + f.name + "\n"@ + f.name + ":\n"@ + prologue() + body),
        None => None,
    }
}

/// The text of all functions, in order.
pub open spec fn asm_funcs(fs: Seq<IrFuncV>, table: SymMap) -> Option<Seq<char>>
    decreases fs.len(),
{
    if fs.len() == 0 {
        Some(Seq::empty())
    } else {
        match asm_funcs(fs.drop_last(), table) {
            Some(t) => match asm_func(fs.last(), table) {
                Some(u) => Some(t + u),
                None => None,
            },
            None => None,
        }
    }
}

/// The assembly text of a program: the header, the globals, then the functions.
pub open spec fn spec_write_asm(p: IrProgV, table: SymMap) -> Option<Seq<char>> {
    match asm_globals(p.global_vars) {
        Some(g) => match asm_funcs(p.funcs, table) {
            Some(f) => Some(header() + g + f),
            None => None,
        },
        None => None,
    }
}

fn asm_global_exec(out: &mut String, g: &IrStmt) -> (ok: bool)
    ensures
        ok <==> asm_global(g@) is Some,
        ok ==> final(out)@ == old(out)@ + asm_global(g@).unwrap(),
{
    match g {
        IrStmt::DeclGlobal(vn, val) => {
            put(out, ".data\n.align\t2\n.global ");
            put(out, vn.as_str());
            put(out, "\n");
            put(out, vn.as_str());
            put(out, ":\n  .word ");
            push_i64(out, *val as i64);
            put(out, "\n");
            true
        },
        IrStmt::DeclGlobalArray(vn, indexes) => {
            assert(indexes@.subrange(0, indexes@.len() as int) =~= indexes@);
            match product(4, indexes, 0) {
                Some(memory) => {
                    put(out, ".text\n  .comm ");
                    put(out, vn.as_str());
                    put(out, ",");
                    push_i64(out, memory as i64);
                    put(out, ",4\n");
                    true
                },
                None => false,
            }
        },
        _ => false,
    }
}

fn asm_func_exec(out: &mut String, f: &IrFunc, table: &SymTab) -> (ok: bool)
    ensures
        ok <==> asm_func(f@, table@) is Some,
        ok ==> final(out)@ == old(out)@ + asm_func(f@, table@).unwrap(),
{
    let ghost o0 = out@;
    let ghost ss = f@.stmts;
    put(out, ".text\n.align\t1\n.global ");
    put(out, f.name.as_str());
    put(out, "\n");
    put(out, f.name.as_str());
    put(out, ":\n");
    put(out, prologue_str());
    let ghost o1 = out@;
    assert(o1 =~= o0 + (".text\n.align\t1\n.global "@ + f.name@ + "\n"@ + f.name@ + ":\n"@ + prologue()));
    let mut alloc_size: u32 = 0;
    let mut i: usize = 0;
    assert(ss.subrange(0, 0) =~= Seq::<IrStmtV>::empty());
    while i < f.stmts.len()
        invariant
            i <= f.stmts@.len(),
            ss == stmts_view(f.stmts@),
            ss.len() == f.stmts@.len(),
            asm_stmts(ss.subrange(0, i as int), table@) matches Some((a, t)) && a == alloc_size as nat && out@ == o1 + t,
        decreases f.stmts@.len() - i,
    {
        let ghost pre = ss.subrange(0, i as int);
        assert(ss.subrange(0, i + 1).drop_last() =~= pre);
        assert(ss.subrange(0, i + 1).last() == f.stmts@[i as int]@);
        let ghost t0 = asm_stmts(pre, table@).unwrap().1;
        match asm_stmt_exec(out, &f.stmts[i], alloc_size, table) {
            Some(a) => {
                alloc_size = a;
            },
            None => {
                proof {
                    lemma_asm_stmts_none(ss.subrange(0, i + 1), ss, table@);
                }
                return false;
            },
        }
        i = i + 1;
    }
    assert(ss.subrange(0, i as int) =~= ss);
    true
}

/// Once a prefix of a function body has no text, the whole body has none.
proof fn lemma_asm_stmts_none(pre: Seq<IrStmtV>, all: Seq<IrStmtV>, table: SymMap)
    requires
        pre.len() <= all.len(),
        pre =~= all.subrange(0, pre.len() as int),
        asm_stmts(pre, table) is None,
    ensures
        asm_stmts(all, table) is None,
    decreases all.len() - pre.len(),
{
    if pre.len() < all.len() {
        let next = all.subrange(0, pre.len() + 1int);
        assert(next.drop_last() =~= pre);
        lemma_asm_stmts_none(next, all, table);
    } else {
        assert(pre =~= all);
    }
}

/// Once a prefix of the globals has no text, the whole list has none.
proof fn lemma_asm_globals_none(pre: Seq<IrStmtV>, all: Seq<IrStmtV>)
    requires
        pre.len() <= all.len(),
        pre =~= all.subrange(0, pre.len() as int),
        asm_globals(pre) is None,
    ensures
        asm_globals(all) is None,
    decreases all.len() - pre.len(),
{
    if pre.len() < all.len() {
        let next = all.subrange(0, pre.len() + 1int);
        assert(next.drop_last() =~= pre);
        lemma_asm_globals_none(next, all);
    } else {
        assert(pre =~= all);
    }
}

/// Once a prefix of the functions has no text, the whole list has none.
proof fn lemma_asm_funcs_none(pre: Seq<IrFuncV>, all: Seq<IrFuncV>, table: SymMap)
    requires
        pre.len() <= all.len(),
        pre =~= all.subrange(0, pre.len() as int),
        asm_funcs(pre, table) is None,
    ensures
        asm_funcs(all, table) is None,
    decreases all.len() - pre.len(),
{
    if pre.len() < all.len() {
        let next = all.subrange(0, pre.len() + 1int);
        assert(next.drop_last() =~= pre);
        lemma_asm_funcs_none(next, all, table);
    } else {
        assert(pre =~= all);
    }
}

/// The RISC-V assembly of `p`: the header, each global, then each function;
/// or `None` where the text cannot be made (see `spec_write_asm`).
fn assemble(p: &IrProg, table: &SymTab) -> (r: Option<String>)
    ensures
        match spec_write_asm(p@, table@) {
            Some(t) => r matches Some(s) && s@ == t,
            None => r is None,
        },
{
    let mut out = String::new();
    put(&mut out, header_str());
    let ghost gs = p@.global_vars;
    let mut i: usize = 0;
    assert(gs.subrange(0, 0) =~= Seq::<IrStmtV>::empty());
    while i < p.global_vars.len()
        invariant
            i <= p.global_vars@.len(),
            gs == stmts_view(p.global_vars@),
            gs.len() == p.global_vars@.len(),
            asm_globals(gs.subrange(0, i as int)) matches Some(t) && out@ == header() + t,
        decreases p.global_vars@.len() - i,
    {
        assert(gs.subrange(0, i + 1).drop_last() =~= gs.subrange(0, i as int));
        assert(gs.subrange(0, i + 1).last() == p.global_vars@[i as int]@);
        if !asm_global_exec(&mut out, &p.global_vars[i]) {
            proof {
                lemma_asm_globals_none(gs.subrange(0, i + 1), gs);
            }
            return None;
        }
        i = i + 1;
    }
    assert(gs.subrange(0, i as int) =~= gs);
    let ghost g = out@;
    let ghost fs = p@.funcs;
    let mut k: usize = 0;
    assert(fs.subrange(0, 0) =~= Seq::<IrFuncV>::empty());
    while k < p.funcs.len()
        invariant
            k <= p.funcs@.len(),
            fs == ir_funcs_view(p.funcs@),
            fs.len() == p.funcs@.len(),
            asm_funcs(fs.subrange(0, k as int), table@) matches Some(t) && out@ == g + t,
        decreases p.funcs@.len() - k,
    {
        assert(fs.subrange(0, k + 1).drop_last() =~= fs.subrange(0, k as int));
        assert(fs.subrange(0, k + 1).last() == p.funcs@[k as int]@);
        if !asm_func_exec(&mut out, &p.funcs[k], table) {
            proof {
                lemma_asm_funcs_none(fs.subrange(0, k + 1), fs, table@);
            }
            return None;
        }
        k = k + 1;
    }
    assert(fs.subrange(0, k as int) =~= fs);
    Some(out)
}

/// Whether the assembly of `p` can be written with the table `table`: every
/// global is a global declaration and no function holds one, every variable
/// assigned to has a register, and stack and array sizes are in range (see
/// `spec_write_asm`).
pub fn writable(p: &IrProg, table: &SymTab) -> (b: bool)
    ensures
        b == spec_write_asm(p@, table@) is Some,
{
    match assemble(p, table) {
        Some(_) => true,
        None => false,
    }
}

/// Writes the RISC-V assembly of `p`: the header, each global, then each
/// function.
pub fn write_asm(p: &IrProg, table: &SymTab) -> (r: String)
    requires
        spec_write_asm(p@, table@) is Some,
    ensures
        spec_write_asm(p@, table@) == Some(r@),
{
    match assemble(p, table) {
        Some(text) => text,
        None => {
            proof {
                assert(false);
            }
            String::new()
        },
    }
}

} // verus!
