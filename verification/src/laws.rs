//! Properties that relate several operations of the compiler's components.
use vstd::prelude::*;
use crate::text::{dec_nat, lemma_dec_nat_injective};
use crate::regeister::{RegState, VRegState, vreg_name, arg_reg_name, TunnelState, tunnel_counts, tunnel_set_arg, tunnel_get_arg, tunnel_is_match};
use crate::ir::{BranchState, LabelType, label_name, IrProgV, SymMap, spec_ast2ir, gen_funcs, gen_func, GenV};
use crate::ast::{ProgV, FuncV};
use crate::symbols::{SymbolV, resolve};
use crate::ir_handle::dataflow::{spec_dataflow, df_funcs, df_func, df_stmts, df_stmt, df_args, DfState};
use crate::ir::{IrStmtV, Str, gen_expr, gen_operands, gen_unary, gen_args, emit_bin, gen_block, gen_stmt, gen_decl};
use crate::ast::{ExprV, BlockItemV, UnaryV, CallV};
use crate::ir::is_binary;
use crate::ir_handle::dataflow::{df_arith, is_arith};
use crate::meaning::{source_value, ir_result, ir_value, ir_left, ir_right, ir_dest, instruction, one_instruction};
use crate::codegen::{asm_stmt, ins3};
use crate::codegen::{spec_write_asm, header};

verus! {

/// The register that `eat` takes is the one that `near` gives back next, and
/// the pool is then as before but for that register.
pub proof fn law_eat_then_near(s: RegState)
    requires
        s.free.len() > 0,
    ensures
        s.eat().0.near().1 == s.eat().1,
        s.eat().0.near().0 == (RegState { free: s.free.drop_last(), near: s.near }),
{
    assert(s.near.push(s.free.last()).drop_last() =~= s.near);
}

/// A register put on the near stack is the one `near` gives back, and the pool
/// is then as before.
pub proof fn law_put_near_then_near(s: RegState, r: Seq<char>)
    ensures
        s.put_near(r).near() == (s, r),
{
    assert(s.near.push(r).drop_last() =~= s.near);
}

/// A virtual register that `eat` hands out is the one `near` gives back next.
pub proof fn law_virtual_eat_then_near(s: VRegState)
    ensures
        s.eat().0.near().1 == s.eat().1,
        s.eat().0.near().0 == (VRegState { counter: s.counter + 1, near: s.near }),
{
    assert(s.near.push(vreg_name(s.counter)).drop_last() =~= s.near);
}

/// A virtual register put on the near stack is the one `near` gives back.
pub proof fn law_virtual_put_near_then_near(s: VRegState, r: Seq<char>)
    ensures
        s.put_near(r).near() == (s, r),
{
    assert(s.near.push(r).drop_last() =~= s.near);
}

/// Virtual registers are never handed out twice: the `n`-th and the `m`-th
/// differ when `n` and `m` do.
pub proof fn law_virtual_registers_distinct(n: nat, m: nat)
    requires
        n != m,
    ensures
        vreg_name(n) != vreg_name(m),
{
    if vreg_name(n) == vreg_name(m) {
        assert(dec_nat(n) =~= vreg_name(n).drop_first());
        assert(dec_nat(m) =~= vreg_name(m).drop_first());
        lemma_dec_nat_injective(n, m);
    }
}

/// Each pool hands out a fresh virtual register: the one a later `eat` gives
/// differs from the one this `eat` gave.
pub proof fn law_virtual_eat_fresh(s: VRegState)
    ensures
        s.eat().0.eat().1 != s.eat().1,
{
    law_virtual_registers_distinct(s.counter + 1, s.counter);
}

/// Labels are unique: two labels made one after the other have different names.
pub proof fn law_labels_distinct(s: BranchState, a: LabelType, b: LabelType)
    requires
        s.frames.len() > 0,
    ensures
        s.create(a).0.create(b).1 != s.create(a).1,
{
    let n1 = s.counter + 1;
    let n2 = s.counter + 2;
    if label_name(n2) == label_name(n1) {
        assert(dec_nat(n1) =~= label_name(n1).drop_first());
        assert(dec_nat(n2) =~= label_name(n2).drop_first());
        lemma_dec_nat_injective(n1, n2);
    }
}

/// Leaving a branch undoes entering it.
pub proof fn law_enter_then_leave(s: BranchState)
    ensures
        s.enter_branch().leave_branch() == s,
{
    assert(s.frames.push(crate::ir::FrameV::empty()).drop_last() =~= s.frames);
}

/// The first label of a kind that is made is the one `label` gives for it.
pub proof fn law_create_then_label(s: BranchState, lt: LabelType)
    requires
        s.frames.len() > 0,
        s.frames[0].get(lt).len() == 0,
    ensures
        s.create(lt).0.has_label(lt),
        s.create(lt).0.label(lt) == s.create(lt).1,
{
}

/// The argument registers of a call are handed out in the order of the
/// callee's parameters: the `k`-th argument goes to the register of the `k`-th
/// parameter. Here for a function's first parameter and first argument, after
/// which the call matches the function.
pub proof fn law_first_argument_register(m: TunnelState, f: Seq<char>)
    requires
        tunnel_counts(m, f) == (0nat, 0nat),
    ensures
        tunnel_get_arg(tunnel_set_arg(m, f).0, f).1 == tunnel_set_arg(m, f).1,
        tunnel_is_match(tunnel_get_arg(tunnel_set_arg(m, f).0, f).0, f).1,
{
}

/// A variable is found from the scope that it was put in.
pub proof fn law_resolve_declared(m: SymMap, scope: Seq<u32>, name: Seq<char>, v: SymbolV)
    requires
        scope.len() > 0,
    ensures
        resolve(m.insert((scope, name), v), scope, name) == Some(scope),
{
}

/// The lowering keeps the functions of a program, in order and by name.
pub proof fn law_ast2ir_keeps_functions(p: ProgV, table: SymMap)
    requires
        spec_ast2ir(p, table) is Some,
    ensures
        spec_ast2ir(p, table).unwrap().0.funcs.len() == p.funcs.len(),
        forall|i: int|
            0 <= i < p.funcs.len() ==> (#[trigger] spec_ast2ir(p, table).unwrap().0.funcs[i]).name == p.funcs[i].name,
{
    let g0 = crate::ir::gen_init(table);
    lemma_gen_funcs_names(g0, p.funcs);
}

proof fn lemma_gen_funcs_names(g: GenV, fs: Seq<FuncV>)
    requires
        gen_funcs(g, fs) is Some,
    ensures
        gen_funcs(g, fs).unwrap().1.len() == fs.len(),
        forall|i: int| 0 <= i < fs.len() ==> (#[trigger] gen_funcs(g, fs).unwrap().1[i]).name == fs[i].name,
    decreases fs.len(),
{
    if fs.len() > 0 {
        lemma_gen_funcs_names(g, fs.drop_last());
    }
}

/// `b` is `a` on other registers: the same kind of statement with the same
/// constants, variables, labels, argument registers and sizes.
pub open spec fn same_but_registers(a: IrStmtV, b: IrStmtV) -> bool {
    match a {
        IrStmtV::Ldc(n, _) => b matches IrStmtV::Ldc(m, _) && m == n,
        IrStmtV::Assign(sc, n, _) => b matches IrStmtV::Assign(sc2, n2, _) && sc2 == sc && n2 == n,
        IrStmtV::Beq(_, l) => b matches IrStmtV::Beq(_, l2) && l2 == l,
        IrStmtV::Call(regs, l, _) => b matches IrStmtV::Call(args, l2, _) && l2 == l && args.len() == regs.len()
            && forall|i: int| 0 <= i < regs.len() ==> #[trigger] args[i].1 == regs[i].1,
        IrStmtV::Load(sc, n, _, _, o) => b matches IrStmtV::Load(sc2, n2, _, _, o2) && sc2 == sc && n2 == n && o2 == o,
        IrStmtV::LoadSymbol(_, v) => b matches IrStmtV::LoadSymbol(_, v2) && v2 == v,
        IrStmtV::Alloc(sc, n, _, z) => b matches IrStmtV::Alloc(sc2, n2, _, z2) && sc2 == sc && n2 == n && z2 == z,
        IrStmtV::Add(..) => b is Add,
        IrStmtV::Sub(..) => b is Sub,
        IrStmtV::Mul(..) => b is Mul,
        IrStmtV::Div(..) => b is Div,
        IrStmtV::Mod(..) => b is Mod,
        IrStmtV::Neg(..) => b is Neg,
        IrStmtV::Or(..) => b is Or,
        IrStmtV::And(..) => b is And,
        IrStmtV::Equal(..) => b is Equal,
        IrStmtV::NotEqual(..) => b is NotEqual,
        IrStmtV::Lt(..) => b is Lt,
        IrStmtV::Let(..) => b is Let,
        IrStmtV::Gt(..) => b is Gt,
        IrStmtV::Get(..) => b is Get,
        IrStmtV::Ret(..) => b is Ret,
        _ => b == a,
    }
}

proof fn lemma_df_args_shape(st: DfState, regs: Seq<(Str, Str)>)
    requires
        df_args(st, regs) is Some,
    ensures
        df_args(st, regs).unwrap().1.len() == regs.len(),
        forall|i: int| 0 <= i < regs.len() ==> #[trigger] df_args(st, regs).unwrap().1[i].1 == regs[i].1,
    decreases regs.len(),
{
    if regs.len() > 0 {
        lemma_df_args_shape(st, regs.drop_last());
    }
}

proof fn lemma_df_stmt_shape(st: DfState, s: IrStmtV)
    requires
        df_stmt(st, s) is Some,
    ensures
        same_but_registers(s, df_stmt(st, s).unwrap().1),
{
    if let IrStmtV::Call(regs, l, _) = s {
        lemma_df_args_shape(st, regs);
    }
}

proof fn lemma_df_stmts_shape(st: DfState, ss: Seq<IrStmtV>)
    requires
        df_stmts(st, ss) is Some,
    ensures
        df_stmts(st, ss).unwrap().1.len() == ss.len(),
        forall|j: int| 0 <= j < ss.len() ==> same_but_registers(ss[j], #[trigger] df_stmts(st, ss).unwrap().1[j]),
    decreases ss.len(),
{
    if ss.len() > 0 {
        lemma_df_stmts_shape(st, ss.drop_last());
        let (st1, r1) = df_stmts(st, ss.drop_last()).unwrap();
        lemma_df_stmt_shape(st1, ss.last());
        let r = df_stmts(st, ss).unwrap().1;
        assert forall|j: int| 0 <= j < ss.len() implies same_but_registers(ss[j], #[trigger] r[j]) by {
            if j < ss.len() - 1 {
                assert(ss[j] == ss.drop_last()[j]);
            }
        }
    }
}

/// The register allocation keeps the globals and each function's name and
/// parameters, and only renames registers: statement `j` of a function
/// becomes statement `j` on other registers, and the parameters follow.
pub proof fn law_dataflow_keeps_shape(p: IrProgV, table: SymMap)
    requires
        spec_dataflow(p, table) is Some,
    ensures
        ({
            let q = spec_dataflow(p, table).unwrap().0;
            &&& q.global_vars == p.global_vars
            &&& q.funcs.len() == p.funcs.len()
            &&& forall|i: int|
                0 <= i < p.funcs.len() ==> {
                    let (f, g) = (p.funcs[i], #[trigger] q.funcs[i]);
                    &&& g.name == f.name
                    &&& g.params == f.params
                    &&& g.stmts.len() == f.stmts.len() + f.params.len()
                    &&& forall|j: int| 0 <= j < f.stmts.len() ==> same_but_registers(f.stmts[j], #[trigger] g.stmts[j])
                    &&& g.stmts.subrange(f.stmts.len() as int, g.stmts.len() as int) == f.params
                }
        }),
{
    let st = DfState { r: RegState { free: crate::regeister::phys_regs(), near: Seq::empty() }, table };
    lemma_df_funcs_shape(st, p.funcs);
}

proof fn lemma_df_funcs_shape(st: DfState, fs: Seq<crate::ir::IrFuncV>)
    requires
        df_funcs(st, fs) is Some,
    ensures
        ({
            let r = df_funcs(st, fs).unwrap().1;
            &&& r.len() == fs.len()
            &&& forall|i: int|
                0 <= i < fs.len() ==> {
                    let (f, g) = (fs[i], #[trigger] r[i]);
                    &&& g.name == f.name
                    &&& g.params == f.params
                    &&& g.stmts.len() == f.stmts.len() + f.params.len()
                    &&& forall|j: int| 0 <= j < f.stmts.len() ==> same_but_registers(f.stmts[j], #[trigger] g.stmts[j])
                    &&& g.stmts.subrange(f.stmts.len() as int, g.stmts.len() as int) == f.params
                }
        }),
    decreases fs.len(),
{
    if fs.len() > 0 {
        lemma_df_funcs_shape(st, fs.drop_last());
        let (st1, r1) = df_funcs(st, fs.drop_last()).unwrap();
        let f = fs.last();
        lemma_df_stmts_shape(st1, f.stmts);
        let ss = df_stmts(st1, f.stmts).unwrap().1;
        let g = df_func(st1, f).unwrap().1;
        assert(g.stmts == ss + f.params);
        assert(g.stmts.subrange(f.stmts.len() as int, g.stmts.len() as int) =~= f.params);
        assert forall|j: int| 0 <= j < f.stmts.len() implies same_but_registers(f.stmts[j], #[trigger] g.stmts[j]) by {
            assert(g.stmts[j] == ss[j]);
        }
        let r = df_funcs(st, fs).unwrap().1;
        assert forall|i: int| 0 <= i < fs.len() - 1 implies #[trigger] r[i] == r1[i] && fs[i] == fs.drop_last()[i] by {
        }
    }
}

/// The assembly text of a program begins with its header.
pub proof fn law_write_asm_header(p: IrProgV, table: SymMap)
    requires
        spec_write_asm(p, table) is Some,
    ensures
        header().is_prefix_of(spec_write_asm(p, table)->0),
{
    let text = spec_write_asm(p, table)->0;
    assert(text.subrange(0, header().len() as int) =~= header());
}

/// The two operands of a binary expression.
pub open spec fn binary_operands(e: ExprV) -> Option<(ExprV, ExprV)> {
    match e {
        ExprV::Add(a, b) | ExprV::Sub(a, b) | ExprV::Mul(a, b) | ExprV::Div(a, b) | ExprV::Mod(a, b)
        | ExprV::Lt(a, b) | ExprV::Gt(a, b) | ExprV::Let(a, b) | ExprV::Get(a, b) | ExprV::And(a, b)
        | ExprV::Or(a, b) | ExprV::NotEquals(a, b) | ExprV::Equals(a, b) => Some((*a, *b)),
        _ => None,
    }
}

/// A binary expression lowers to the statements of its left operand, then
/// those of its right operand, each in the state the one before left, then
/// the one statement of the operation (`emit_bin`), which pops the registers
/// that the two operands left on the near stack and takes fresh ones.
pub proof fn law_binary_lowering(g: GenV, e: ExprV)
    requires
        binary_operands(e) is Some,
    ensures
        gen_expr(g, e) == (match gen_expr(g, binary_operands(e).unwrap().0) {
            Some((g1, s1)) => match gen_expr(g1, binary_operands(e).unwrap().1) {
                Some((g2, s2)) => match emit_bin(g2, e) {
                    Some((g3, st)) => Some((g3, s1 + s2 + seq![st])),
                    None => None,
                },
                None => None,
            },
            None => None::<(GenV, Seq<IrStmtV>)>,
        }),
{
    let (a, b) = binary_operands(e)->0;
    assert(gen_operands(g, e) == (match gen_expr(g, a) {
        Some((g1, s1)) => match gen_expr(g1, b) {
            Some((g2, s2)) => Some((g2, s1 + s2)),
            None => None,
        },
        None => None::<(GenV, Seq<IrStmtV>)>,
    }));
    assert(gen_expr(g, e) == (match gen_operands(g, e) {
        Some((g1, s1)) => match emit_bin(g1, e) {
            Some((g2, st)) => Some((g2, s1.push(st))),
            None => None,
        },
        None => None::<(GenV, Seq<IrStmtV>)>,
    }));
    if let Some((g1, s1)) = gen_expr(g, a) {
        if let Some((g2, s2)) = gen_expr(g1, b) {
            if let Some((g3, st)) = emit_bin(g2, e) {
                assert((s1 + s2).push(st) =~= s1 + s2 + seq![st]);
            }
        }
    }
}

/// How one item of a block lowers: a statement as `gen_stmt`, a declaration
/// as `gen_decl`.
pub open spec fn item_lowering(g: GenV, item: BlockItemV) -> Option<(GenV, Seq<IrStmtV>)> {
    match item {
        BlockItemV::Stmt(st) => gen_stmt(g, st),
        BlockItemV::Decl(d) => gen_decl(g, d),
    }
}

/// A block lowers item by item: the items of `xs + ys` lower to what `xs`
/// lowers to, then what `ys` lowers to in the state `xs` left; an empty
/// block lowers to nothing.
pub proof fn law_block_lowering(g: GenV, xs: Seq<BlockItemV>, ys: Seq<BlockItemV>)
    ensures
        gen_block(g, Seq::empty()) == Some((g, Seq::<IrStmtV>::empty())),
        gen_block(g, xs + ys) == (match gen_block(g, xs) {
            Some((g1, s1)) => match gen_block(g1, ys) {
                Some((g2, s2)) => Some((g2, s1 + s2)),
                None => None,
            },
            None => None::<(GenV, Seq<IrStmtV>)>,
        }),
    decreases ys.len(),
{
    if ys.len() == 0 {
        assert(xs + ys =~= xs);
        if let Some((g1, s1)) = gen_block(g, xs) {
            assert(s1 + Seq::<IrStmtV>::empty() =~= s1);
        }
    } else {
        law_block_lowering(g, xs, ys.drop_last());
        assert((xs + ys).drop_last() =~= xs + ys.drop_last());
        assert((xs + ys).last() == ys.last());
        if let Some((g1, s1)) = gen_block(g, xs) {
            if let Some((g2, s2)) = gen_block(g1, ys.drop_last()) {
                if let Some((g3, s3)) = item_lowering(g2, ys.last()) {
                    assert(s1 + s2 + s3 =~= s1 + (s2 + s3));
                }
            }
        }
    }
}

/// One item more: a block with `item` after `xs` lowers to what `xs` lowers
/// to, then what `item` lowers to in the state `xs` left.
pub proof fn law_block_lowering_step(g: GenV, xs: Seq<BlockItemV>, item: BlockItemV)
    ensures
        gen_block(g, xs.push(item)) == (match gen_block(g, xs) {
            Some((g1, s1)) => match item_lowering(g1, item) {
                Some((g2, s2)) => Some((g2, s1 + s2)),
                None => None,
            },
            None => None::<(GenV, Seq<IrStmtV>)>,
        }),
{
    assert(xs.push(item).drop_last() =~= xs);
}

/// A read of a name that no open scope declares has no lowering: where the
/// name does not resolve, reading it fails.
pub proof fn law_unresolved_read_fails(g: GenV, env: Seq<u32>, id: Str)
    requires
        resolve(g.table, env, id) is None,
    ensures
        gen_unary(g, UnaryV::Identifier(env, id)) is None,
{
}

/// A call whose argument count does not match the parameters of the
/// function called has no lowering: once the arguments are computed, the
/// tunnel's check fails and so does the call.
pub proof fn law_call_with_wrong_arity_fails(g: GenV, c: CallV)
    requires
        gen_args(g, c.params, c.name) is Some,
        !tunnel_is_match(gen_args(g, c.params, c.name).unwrap().0.tunnel, c.name).1,
    ensures
        gen_unary(g, UnaryV::Call(c)) is None,
{
}

/// The statement that a binary expression lowers to, once both operands are
/// computed, computes the expression's own operator on them: its left operand
/// is the value below the top of the near stack (the left operand, computed
/// first) and its right operand the value on top (the right operand, computed
/// last), whatever values the registers hold. So `a > b` gives 1 exactly when
/// `a > b`, `a == b` exactly when `a = b`, and `a / b` divides `a` by `b`.
pub proof fn law_lowered_operation_computes_the_operator(g: GenV, e: ExprV, env: Map<Str, int>)
    requires
        is_binary(e),
        emit_bin(g, e) is Some,
    ensures
        g.r.near.len() >= 2,
        ir_value(emit_bin(g, e).unwrap().1, env) == source_value(
            e,
            env[g.r.near[g.r.near.len() - 2]],
            env[g.r.near[g.r.near.len() - 1]],
        ),
{
}

/// The allocation of temporaries keeps what every arithmetic statement
/// computes: the rewritten statement applies the operation of the original
/// one, with the value below the top of the near stack of temporaries as its
/// left operand and the value on top as its right operand, whatever values
/// the temporaries hold. So `Div` still divides the value computed first by
/// the value computed last.
pub proof fn law_allocation_keeps_the_operation(st: DfState, s: IrStmtV, env: Map<Str, int>)
    requires
        is_arith(s),
        df_arith(st, s) is Some,
    ensures
        st.r.near.len() >= 2,
        ir_value(df_arith(st, s).unwrap().1, env) == ir_result(
            s,
            env[st.r.near[st.r.near.len() - 2]],
            env[st.r.near[st.r.near.len() - 1]],
        ),
{
}

/// The assembly of an arithmetic statement reads the left operand's register
/// as the first source and the right operand's as the second, so `x - y`,
/// `x / y` and `x < y` are computed as written: a one-instruction statement
/// is that instruction on its result, left and right registers; an equality
/// or `<=`/`>=` begins with the difference left minus right.
pub proof fn law_assembly_keeps_the_operand_order(s: IrStmtV, alloc: nat, table: SymMap)
    requires
        one_instruction(s) || s is Equal || s is NotEqual || s is Let || s is Get,
    ensures
        one_instruction(s) ==> asm_stmt(s, alloc, table) == Some((alloc, ins3(instruction(s), ir_dest(s), ir_left(s), ir_right(s)))),
        !one_instruction(s) ==> (asm_stmt(s, alloc, table) matches Some((a, text)) && a == alloc
            && exists|t: Str| #[trigger] ins3("  sub "@, t, ir_left(s), ir_right(s)).is_prefix_of(text)),
{
    if !one_instruction(s) {
        let (a, text) = asm_stmt(s, alloc, table).unwrap();
        let t = match s {
            IrStmtV::Equal(_, _, t, _) | IrStmtV::NotEqual(_, _, t, _) => t,
            IrStmtV::Let(_, _, t, _, _, _) | IrStmtV::Get(_, _, t, _, _, _) => t,
            _ => Seq::empty(),
        };
        let first = ins3("  sub "@, t, ir_left(s), ir_right(s));
        assert(asm_stmt(s, alloc, table) == Some((alloc, crate::codegen::asm_arith(s))));
        assert(text.subrange(0, first.len() as int) =~= first);
        assert(first.is_prefix_of(text));
    }
}

} // verus!
