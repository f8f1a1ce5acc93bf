//! Physical register allocation over the intermediate representation, and the
//! division of a function's statements into basic blocks.
use vstd::prelude::*;
use crate::ir::{IrStmt, IrStmtV, IrProg, IrProgV, IrFunc, IrFuncV, Str, SymMap, stmts_view, ir_funcs_view, pairs_view, copy_stmt, copy_stmts};
use crate::regeister::{Regeister, RegState, phys_regs};
use crate::symbols::SymTab;

verus! {

broadcast use crate::seqs::group_concat;

/// The state of the allocation: the pool of temporaries and the symbol table.
pub struct DfState {
    pub r: RegState,
    pub table: SymMap,
}

pub open spec fn global_scope() -> Seq<u32> {
    seq![1u32]
}

pub open spec fn d_near(st: DfState) -> Option<(DfState, Str)> {
    if st.r.near.len() > 0 {
        Some((DfState { r: st.r.near().0, ..st }, st.r.near().1))
    } else {
        None
    }
}

pub open spec fn d_eat(st: DfState) -> Option<(DfState, Str)> {
    if st.r.free.len() > 0 {
        Some((DfState { r: st.r.eat().0, ..st }, st.r.eat().1))
    } else {
        None
    }
}

/// Records `reg` as the physical register of (`scope`, `name`) when the
/// variable is declared and has none yet.
pub open spec fn d_set_phy(st: DfState, scope: Seq<u32>, name: Str, reg: Str) -> DfState {
    let k = (scope, name);
    if st.table.contains_key(k) && !st.table[k].alloc_phy_reg {
        DfState { table: st.table.insert(k, st.table[k].with_reg(reg, false, true)), ..st }
    } else {
        st
    }
}

/// Gives (`scope`, `name`) a fresh temporary when it is declared and has no
/// physical register yet.
pub open spec fn d_alloc_phy(st: DfState, scope: Seq<u32>, name: Str) -> Option<DfState> {
    let k = (scope, name);
    if st.table.contains_key(k) && !st.table[k].alloc_phy_reg {
        match d_eat(st) {
            Some((st1, t)) => Some(d_set_phy(st1, scope, name, t)),
            None => None,
        }
    } else {
        Some(st)
    }
}

/// The register that holds (`scope`, `name`).
pub open spec fn d_reg(st: DfState, scope: Seq<u32>, name: Str) -> Option<Str> {
    if st.table.contains_key((scope, name)) {
        st.table[(scope, name)].reg
    } else {
        None
    }
}

pub open spec fn is_arith3(s: IrStmtV) -> bool {
    ||| s is Add
    ||| s is Sub
    ||| s is Mul
    ||| s is Div
    ||| s is Mod
    ||| s is Or
    ||| s is And
    ||| s is Lt
    ||| s is Gt
}

pub open spec fn is_arith(s: IrStmtV) -> bool {
    is_arith3(s) || s is Equal || s is NotEqual || s is Let || s is Get
}

/// The statement `s` on registers `regs`.
pub open spec fn rebuild(s: IrStmtV, regs: Seq<Str>) -> IrStmtV {
    match s {
        IrStmtV::Add(..) => IrStmtV::Add(regs[0], regs[1], regs[2]),
        IrStmtV::Sub(..) => IrStmtV::Sub(regs[0], regs[1], regs[2]),
        IrStmtV::Mul(..) => IrStmtV::Mul(regs[0], regs[1], regs[2]),
        IrStmtV::Div(..) => IrStmtV::Div(regs[0], regs[1], regs[2]),
        IrStmtV::Mod(..) => IrStmtV::Mod(regs[0], regs[1], regs[2]),
        IrStmtV::Or(..) => IrStmtV::Or(regs[0], regs[1], regs[2]),
        IrStmtV::And(..) => IrStmtV::And(regs[0], regs[1], regs[2]),
        IrStmtV::Lt(..) => IrStmtV::Lt(regs[0], regs[1], regs[2]),
        IrStmtV::Gt(..) => IrStmtV::Gt(regs[0], regs[1], regs[2]),
        IrStmtV::Equal(..) => IrStmtV::Equal(regs[0], regs[1], regs[2], regs[3]),
        IrStmtV::NotEqual(..) => IrStmtV::NotEqual(regs[0], regs[1], regs[2], regs[3]),
        IrStmtV::Let(..) => IrStmtV::Let(regs[0], regs[1], regs[2], regs[3], regs[4], regs[5]),
        _ => IrStmtV::Get(regs[0], regs[1], regs[2], regs[3], regs[4], regs[5]),
    }
}

/// An arithmetic statement on temporaries: its two operands are popped from
/// the near stack, its results take fresh temporaries.
pub open spec fn df_arith(st: DfState, s: IrStmtV) -> Option<(DfState, IrStmtV)> {
    match d_near(st) {
        Some((st1, a)) => match d_near(st1) {
            Some((st2, b)) => match d_eat(st2) {
                Some((st3, c)) => if is_arith3(s) {
                    Some((st3, rebuild(s, seq![a, b, c])))
                } else {
                    match d_eat(st3) {
                        Some((st4, d)) => if s is Equal || s is NotEqual {
                            Some((st4, rebuild(s, seq![a, b, c, d])))
                        } else {
                            match d_eat(st4) {
                                Some((st5, e)) => match d_eat(st5) {
                                    Some((st6, f)) => Some((st6, rebuild(s, seq![a, b, c, d, e, f]))),
                                    None => None,
                                },
                                None => None,
                            }
                        },
                        None => None,
                    }
                },
                None => None,
            },
            None => None,
        },
        None => None,
    }
}

/// The arguments of a call: each argument's value is popped from the near
/// stack and paired with the argument register it goes to.
pub open spec fn df_args(st: DfState, regs: Seq<(Str, Str)>) -> Option<(DfState, Seq<(Str, Str)>)>
    decreases regs.len(),
{
    if regs.len() == 0 {
        Some((st, Seq::empty()))
    } else {
        match df_args(st, regs.drop_last()) {
            Some((st1, args)) => match d_near(st1) {
                Some((st2, t)) => Some((st2, args.push((t, regs.last().1)))),
                None => None,
            },
            None => None,
        }
    }
}

/// One statement with physical registers in place of virtual ones.
pub open spec fn df_stmt(st: DfState, s: IrStmtV) -> Option<(DfState, IrStmtV)> {
    match s {
        IrStmtV::Neg(..) => match d_near(st) {
            Some((st1, a)) => match d_eat(st1) {
                Some((st2, b)) => Some((st2, IrStmtV::Neg(a, b))),
                None => None,
            },
            None => None,
        },
        IrStmtV::Ldc(n, _) => match d_eat(st) {
            Some((st1, t)) => Some((st1, IrStmtV::Ldc(n, t))),
            None => None,
        },
        IrStmtV::Ret(_) => match d_near(st) {
            Some((st1, t)) => Some((st1, IrStmtV::Ret(t))),
            None => None,
        },
        IrStmtV::Assign(sc, n, _) => match d_near(st) {
            Some((st1, t)) => match d_alloc_phy(st1, sc, n) {
                Some(st2) => Some((st2, IrStmtV::Assign(sc, n, t))),
                None => None,
            },
            None => None,
        },
        IrStmtV::Beq(_, l) => match d_near(st) {
            Some((st1, t)) => Some((st1, IrStmtV::Beq(t, l))),
            None => None,
        },
        IrStmtV::Ref(sc, n) => match d_reg(st, sc, n) {
            Some(x) => Some((DfState { r: st.r.put_near(x), ..st }, IrStmtV::Ref(sc, n))),
            None => None,
        },
        IrStmtV::Call(regs, l, _) => match df_args(st, regs) {
            Some((st1, args)) => match d_eat(st1) {
                Some((st2, t)) => Some((st2, IrStmtV::Call(args, l, t))),
                None => None,
            },
            None => None,
        },
        IrStmtV::Load(sc, name, _, _, n) => match d_reg(st, sc, name) {
            Some(x) => match d_eat(st) {
                Some((st1, t)) => Some((st1, IrStmtV::Load(sc, name, t, x, n))),
                None => None,
            },
            None => None,
        },
        IrStmtV::LoadSymbol(_, v) => match d_eat(st) {
            Some((st1, t)) => Some((d_set_phy(st1, global_scope(), v, t), IrStmtV::LoadSymbol(t, v))),
            None => None,
        },
        IrStmtV::Jmp(l) => Some((st, IrStmtV::Jmp(l))),
        IrStmtV::Label(l) => Some((st, IrStmtV::Label(l))),
        IrStmtV::Param(..) => None,
        IrStmtV::DeclGlobal(..) => None,
        IrStmtV::DeclGlobalArray(..) => None,
        IrStmtV::Alloc(sc, name, _, size) => match d_alloc_phy(st, sc, name) {
            Some(st1) => match d_eat(st1) {
                Some((st2, t)) => Some((st2, IrStmtV::Alloc(sc, name, t, size))),
                None => None,
            },
            None => None,
        },
        _ => df_arith(st, s),
    }
}

pub open spec fn df_stmts(st: DfState, ss: Seq<IrStmtV>) -> Option<(DfState, Seq<IrStmtV>)>
    decreases ss.len(),
{
    if ss.len() == 0 {
        Some((st, Seq::empty()))
    } else {
        match df_stmts(st, ss.drop_last()) {
            Some((st1, r1)) => match df_stmt(st1, ss.last()) {
                Some((st2, x)) => Some((st2, r1.push(x))),
                None => None,
            },
            None => None,
        }
    }
}

pub open spec fn all_params(ps: Seq<IrStmtV>) -> bool {
    forall|i: int| 0 <= i < ps.len() ==> (#[trigger] ps[i]) is Param
}

/// A function with physical registers: its statements rewritten, followed by
/// its parameters.
pub open spec fn df_func(st: DfState, f: IrFuncV) -> Option<(DfState, IrFuncV)> {
    match df_stmts(st, f.stmts) {
        Some((st1, ss)) => if all_params(f.params) {
            Some((st1, IrFuncV { name: f.name, stmts: ss + f.params, params: f.params }))
        } else {
            None
        },
        None => None,
    }
}

pub open spec fn df_funcs(st: DfState, fs: Seq<IrFuncV>) -> Option<(DfState, Seq<IrFuncV>)>
    decreases fs.len(),
{
    if fs.len() == 0 {
        Some((st, Seq::empty()))
    } else {
        match df_funcs(st, fs.drop_last()) {
            Some((st1, r1)) => match df_func(st1, fs.last()) {
                Some((st2, f)) => Some((st2, r1.push(f))),
                None => None,
            },
            None => None,
        }
    }
}

/// The allocation over a whole program, starting from the ten temporaries; the
/// global declarations are kept. `None` where the pool runs out, a value is
/// read before one was computed, a variable has no register, or a statement
/// stands where it cannot.
pub open spec fn spec_dataflow(p: IrProgV, table: SymMap) -> Option<(IrProgV, SymMap)> {
    match df_funcs(DfState { r: RegState { free: phys_regs(), near: Seq::empty() }, table }, p.funcs) {
        Some((st, fs)) => Some((IrProgV { funcs: fs, global_vars: p.global_vars }, st.table)),
        None => None,
    }
}

struct Df {
    r: Regeister,
    table: SymTab,
}

impl View for Df {
    type V = DfState;

    closed spec fn view(&self) -> DfState {
        DfState { r: self.r@, table: self.table@ }
    }
}

fn near(d: &mut Df) -> (r: Option<String>)
    ensures
        match d_near(old(d)@) {
            Some((d1, t)) => r is Some && r->0@ == t && final(d)@ == d1,
            None => r is None,
        },
{
    if d.r.has_near() {
        Some(d.r.near())
    } else {
        None
    }
}

fn eat(d: &mut Df) -> (r: Option<String>)
    ensures
        match d_eat(old(d)@) {
            Some((d1, t)) => r is Some && r->0@ == t && final(d)@ == d1,
            None => r is None,
        },
{
    if d.r.has_free() {
        Some(d.r.eat())
    } else {
        None
    }
}

fn set_phy(d: &mut Df, scope: &Vec<u32>, name: &String, reg: String)
    ensures
        final(d)@ == d_set_phy(old(d)@, scope@, name@, reg@),
{
    let needs = match d.table.entry(scope, name) {
        Some(s) => !s.alloc_phy_reg,
        None => false,
    };
    if needs {
        d.table.set_reg(scope, name, reg, false, true);
    }
}

fn alloc_phy(d: &mut Df, scope: &Vec<u32>, name: &String) -> (r: Option<()>)
    ensures
        match d_alloc_phy(old(d)@, scope@, name@) {
            Some(d1) => r is Some && final(d)@ == d1,
            None => r is None,
        },
{
    let needs = match d.table.entry(scope, name) {
        Some(s) => !s.alloc_phy_reg,
        None => false,
    };
    if needs {
        let t = eat(d)?;
        set_phy(d, scope, name, t);
    }
    Some(())
}

fn reg_of(d: &Df, scope: &Vec<u32>, name: &String) -> (r: Option<String>)
    ensures
        match d_reg(d@, scope@, name@) {
            Some(x) => r is Some && r->0@ == x,
            None => r is None,
        },
{
    match d.table.entry(scope, name) {
        Some(s) => match &s.reg {
            Some(x) => Some(x.clone()),
            None => None,
        },
        None => None,
    }
}

fn arith(d: &mut Df, s: &IrStmt) -> (r: Option<IrStmt>)
    requires
        is_arith(s@),
    ensures
        match df_arith(old(d)@, s@) {
            Some((d1, x)) => r is Some && r->0@ == x && final(d)@ == d1,
            None => r is None,
        },
{
    let a = near(d)?;
    let b = near(d)?;
    let c = eat(d)?;
    match s {
        IrStmt::Add(..) => Some(IrStmt::Add(a, b, c)),
        IrStmt::Sub(..) => Some(IrStmt::Sub(a, b, c)),
        IrStmt::Mul(..) => Some(IrStmt::Mul(a, b, c)),
        IrStmt::Div(..) => Some(IrStmt::Div(a, b, c)),
        IrStmt::Mod(..) => Some(IrStmt::Mod(a, b, c)),
        IrStmt::Or(..) => Some(IrStmt::Or(a, b, c)),
        IrStmt::And(..) => Some(IrStmt::And(a, b, c)),
        IrStmt::Lt(..) => Some(IrStmt::Lt(a, b, c)),
        IrStmt::Gt(..) => Some(IrStmt::Gt(a, b, c)),
        IrStmt::Equal(..) => {
            let e = eat(d)?;
            Some(IrStmt::Equal(a, b, c, e))
        },
        IrStmt::NotEqual(..) => {
            let e = eat(d)?;
            Some(IrStmt::NotEqual(a, b, c, e))
        },
        IrStmt::Let(..) => {
            let e = eat(d)?;
            let f = eat(d)?;
            let h = eat(d)?;
            Some(IrStmt::Let(a, b, c, e, f, h))
        },
        _ => {
            let e = eat(d)?;
            let f = eat(d)?;
            let h = eat(d)?;
            Some(IrStmt::Get(a, b, c, e, f, h))
        },
    }
}

proof fn lemma_args_prefix_none(st: DfState, regs: Seq<(Str, Str)>, k: int)
    requires
        0 <= k <= regs.len(),
        df_args(st, regs.subrange(0, k)) is None,
    ensures
        df_args(st, regs) is None,
    decreases regs.len() - k,
{
    if k < regs.len() {
        assert(regs.subrange(0, k + 1).drop_last() =~= regs.subrange(0, k));
        lemma_args_prefix_none(st, regs, k + 1);
    } else {
        assert(regs.subrange(0, k) =~= regs);
    }
}

fn call_args(d: &mut Df, regs: &Vec<(String, String)>) -> (r: Option<Vec<(String, String)>>)
    ensures
        match df_args(old(d)@, pairs_view(regs@)) {
            Some((d1, args)) => r is Some && pairs_view(r->0@) == args && final(d)@ == d1,
            None => r is None,
        },
{
    let ghost d0 = d@;
    let ghost rv = pairs_view(regs@);
    let mut args: Vec<(String, String)> = Vec::new();
    let mut i: usize = 0;
    assert(rv.subrange(0, 0) =~= Seq::<(Str, Str)>::empty());
    assert(pairs_view(args@) =~= Seq::<(Str, Str)>::empty());
    #[verifier::loop_isolation(false)]
    while i < regs.len()
        invariant
            i <= regs@.len(),
            rv == pairs_view(regs@),
            match df_args(d0, rv.subrange(0, i as int)) {
                Some((d1, a1)) => d@ == d1 && pairs_view(args@) == a1,
                None => false,
            },
        decreases regs@.len() - i,
    {
        assert(rv.subrange(0, i + 1).drop_last() =~= rv.subrange(0, i as int));
        assert(rv.subrange(0, i + 1).last() == (regs@[i as int].0@, regs@[i as int].1@));
        let t = match near(d) {
            Some(t) => t,
            None => {
                proof {
                    lemma_args_prefix_none(d0, rv, i + 1);
                }
                return None;
            },
        };
        let ghost before = args@;
        args.push((t, regs[i].1.clone()));
        assert(pairs_view(args@) =~= pairs_view(before).push((args@.last().0@, args@.last().1@)));
        i = i + 1;
    }
    assert(rv.subrange(0, i as int) =~= rv);
    Some(args)
}

/// Rewrites one statement onto physical registers.
fn df_stmt_exec(d: &mut Df, s: &IrStmt) -> (r: Option<IrStmt>)
    ensures
        match df_stmt(old(d)@, s@) {
            Some((d1, x)) => r is Some && r->0@ == x && final(d)@ == d1,
            None => r is None,
        },
{
    match s {
        IrStmt::Neg(_, _) => {
            let a = near(d)?;
            let b = eat(d)?;
            Some(IrStmt::Neg(a, b))
        },
        IrStmt::Ldc(n, _reg) => {
            let t = eat(d)?;
            Some(IrStmt::Ldc(*n, t))
        },
        IrStmt::Ret(_) => {
            let t = near(d)?;
            Some(IrStmt::Ret(t))
        },
        IrStmt::Assign(sc, n, _) => {
            let near = near(d)?;
            alloc_phy(d, sc, n)?;
            Some(IrStmt::Assign(sc.clone(), n.clone(), near))
        },
        IrStmt::Beq(_, l) => {
            let t = near(d)?;
            Some(IrStmt::Beq(t, l.clone()))
        },
        IrStmt::Ref(sc, n) => {
            // ref put near
            let reg = reg_of(d, sc, n)?;
            d.r.put_near(reg);
            Some(IrStmt::Ref(sc.clone(), n.clone()))
        },
        IrStmt::Call(regs, l, _) => {
            let args = call_args(d, regs)?;
            let t = eat(d)?;
            Some(IrStmt::Call(args, l.clone(), t))
        },
        IrStmt::Load(scope, name, _, _, n) => {
            // get phy reg
            let reg = reg_of(d, scope, name)?;
            let eat = eat(d)?;
            Some(IrStmt::Load(scope.clone(), name.clone(), eat, reg, *n))
        },
        IrStmt::LoadSymbol(_, v) => {
            let t = eat(d)?;
            let gs = vec![1u32];
            assert(gs@ =~= global_scope());
            set_phy(d, &gs, v, t.clone());
            Some(IrStmt::LoadSymbol(t, v.clone()))
        },
        IrStmt::Jmp(_) | IrStmt::Label(_) => Some(copy_stmt(s)),
        IrStmt::Param(..) | IrStmt::DeclGlobal(..) | IrStmt::DeclGlobalArray(..) => None,
        IrStmt::Alloc(scope, name, _, size) => {
            // alloc phy reg
            alloc_phy(d, scope, name)?;
            let t = eat(d)?;
            Some(IrStmt::Alloc(scope.clone(), name.clone(), t, *size))
        },
        _ => arith(d, s),
    }
}

proof fn lemma_stmts_prefix_none(st: DfState, ss: Seq<IrStmtV>, k: int)
    requires
        0 <= k <= ss.len(),
        df_stmts(st, ss.subrange(0, k)) is None,
    ensures
        df_stmts(st, ss) is None,
    decreases ss.len() - k,
{
    if k < ss.len() {
        assert(ss.subrange(0, k + 1).drop_last() =~= ss.subrange(0, k));
        lemma_stmts_prefix_none(st, ss, k + 1);
    } else {
        assert(ss.subrange(0, k) =~= ss);
    }
}

proof fn lemma_funcs_prefix_none(st: DfState, fs: Seq<IrFuncV>, k: int)
    requires
        0 <= k <= fs.len(),
        df_funcs(st, fs.subrange(0, k)) is None,
    ensures
        df_funcs(st, fs) is None,
    decreases fs.len() - k,
{
    if k < fs.len() {
        assert(fs.subrange(0, k + 1).drop_last() =~= fs.subrange(0, k));
        lemma_funcs_prefix_none(st, fs, k + 1);
    } else {
        assert(fs.subrange(0, k) =~= fs);
    }
}

fn df_func_exec(d: &mut Df, f: &IrFunc) -> (r: Option<IrFunc>)
    ensures
        match df_func(old(d)@, f@) {
            Some((d1, x)) => r is Some && r->0@ == x && final(d)@ == d1,
            None => r is None,
        },
{
    let ghost d0 = d@;
    let ghost sv = stmts_view(f.stmts@);
    let mut stmts: Vec<IrStmt> = Vec::new();
    let mut i: usize = 0;
    assert(sv.subrange(0, 0) =~= Seq::<IrStmtV>::empty());
    assert(stmts_view(stmts@) =~= Seq::<IrStmtV>::empty());
    #[verifier::loop_isolation(false)]
    while i < f.stmts.len()
        invariant
            i <= f.stmts@.len(),
            sv == stmts_view(f.stmts@),
            match df_stmts(d0, sv.subrange(0, i as int)) {
                Some((d1, r1)) => d@ == d1 && stmts_view(stmts@) == r1,
                None => false,
            },
        decreases f.stmts@.len() - i,
    {
        assert(sv.subrange(0, i + 1).drop_last() =~= sv.subrange(0, i as int));
        assert(sv.subrange(0, i + 1).last() == f.stmts@[i as int]@);
        let x = match df_stmt_exec(d, &f.stmts[i]) {
            Some(x) => x,
            None => {
                proof {
                    lemma_stmts_prefix_none(d0, sv, i + 1);
                }
                return None;
            },
        };
        let ghost before = stmts@;
        stmts.push(x);
        assert(stmts_view(stmts@) =~= stmts_view(before).push(x@));
        i = i + 1;
    }
    assert(sv.subrange(0, i as int) =~= sv);
    let ghost body = stmts@;
    let mut j: usize = 0;
    while j < f.params.len()
        invariant
            j <= f.params@.len(),
            stmts@.len() == body.len() + j,
            forall|k: int| 0 <= k < body.len() ==> stmts@[k] == body[k],
            forall|k: int| body.len() <= k < body.len() + j ==> (#[trigger] stmts@[k])@ == f.params@[k - body.len()]@,
            forall|k: int| 0 <= k < j ==> (#[trigger] f.params@[k])@ is Param,
        decreases f.params@.len() - j,
    {
        match &f.params[j] {
            IrStmt::Param(..) => stmts.push(copy_stmt(&f.params[j])),
            _ => {
                proof {
                    assert(!(stmts_view(f.params@)[j as int] is Param));
                }
                return None;
            },
        }
        j = j + 1;
    }
    proof {
        assert(stmts_view(stmts@) =~= stmts_view(body) + stmts_view(f.params@));
        assert(all_params(stmts_view(f.params@)));
    }
    Some(IrFunc { name: f.name.clone(), stmts, params: copy_stmts(&f.params) })
}

/// Moves a program from virtual registers onto the ten temporaries `t0`..`t9`
/// (one pool for the whole program), following the order in which values are
/// computed and used; variables get a temporary the first time one is needed.
/// Where that cannot be done (see `spec_dataflow`) the result is `None` and
/// the table is left as it was.
fn allocate(p: &IrProg, table: &mut SymTab) -> (r: Option<IrProg>)
    ensures
        match spec_dataflow(p@, old(table)@) {
            Some((ir, t)) => r is Some && r->0@ == ir && final(table)@ == t,
            None => r is None && final(table)@ == old(table)@,
        },
{
    let mut d = Df { r: Regeister::init(), table: table.copy() };
    let ghost d0 = d@;
    let ghost fv = p@.funcs;
    let mut funcs: Vec<IrFunc> = Vec::new();
    let mut i: usize = 0;
    assert(fv.subrange(0, 0) =~= Seq::<IrFuncV>::empty());
    assert(ir_funcs_view(funcs@) =~= Seq::<IrFuncV>::empty());
    #[verifier::loop_isolation(false)]
    while i < p.funcs.len()
        invariant
            i <= p.funcs@.len(),
            fv == p@.funcs,
            fv.len() == p.funcs@.len(),
            match df_funcs(d0, fv.subrange(0, i as int)) {
                Some((d1, r1)) => d@ == d1 && ir_funcs_view(funcs@) == r1,
                None => false,
            },
        decreases p.funcs@.len() - i,
    {
        assert(fv.subrange(0, i + 1).drop_last() =~= fv.subrange(0, i as int));
        assert(fv.subrange(0, i + 1).last() == p.funcs@[i as int]@);
        let f = match df_func_exec(&mut d, &p.funcs[i]) {
            Some(f) => f,
            None => {
                proof {
                    lemma_funcs_prefix_none(d0, fv, i + 1);
                }
                return None;
            },
        };
        let ghost before = funcs@;
        funcs.push(f);
        assert(ir_funcs_view(funcs@) =~= ir_funcs_view(before).push(f@));
        i = i + 1;
    }
    assert(fv.subrange(0, i as int) =~= fv);
    *table = d.table;
    Some(IrProg { funcs, global_vars: copy_stmts(&p.global_vars) })
}

/// Whether the temporaries suffice for `p` with the table `table`: the pool
/// never runs dry and every variable read has a register (see
/// `spec_dataflow`).
pub fn allocatable(p: &IrProg, table: &SymTab) -> (b: bool)
    ensures
        b == spec_dataflow(p@, table@) is Some,
{
    let mut t = table.copy();
    match allocate(p, &mut t) {
        Some(_) => true,
        None => false,
    }
}

/// Moves a program from virtual registers onto the ten temporaries `t0`..`t9`
/// (one pool for the whole program), following the order in which values are
/// computed and used; variables get a temporary the first time one is needed.
pub fn dataflow(p: &IrProg, table: &mut SymTab) -> (r: IrProg)
    requires
        spec_dataflow(p@, old(table)@) is Some,
    ensures
        spec_dataflow(p@, old(table)@) == Some((r@, final(table)@)),
{
    match allocate(p, table) {
        Some(r) => r,
        None => {
            proof {
                assert(false);
            }
            IrProg { funcs: Vec::new(), global_vars: Vec::new() }
        },
    }
}

/*
    A basic block:
    1. apart from its exit, it holds no jump (Jmp, Beq) or Ret (it may hold a Call);
    2. apart from its entry, it holds no Label, so nothing jumps into its middle;
    3. it is as long as 1 and 2 allow.
*/
/// A straight-line run of statements; its edges to other blocks are left
/// empty.
#[derive(Debug)]
pub struct BasicBlock<'a> {
    pub stmts: Vec<&'a IrStmt>,
    pub edges: Vec<&'a BasicBlock<'a>>,  // from none,branch,cond branch
}

impl<'a> BasicBlock<'a> {
    fn new() -> (r: Self)
        ensures
            r.stmts@.len() == 0,
            r.edges@.len() == 0,
    {
        Self { stmts: vec![], edges: vec![] }
    }

    pub closed spec fn view(&self) -> Seq<IrStmtV> {
        self.stmts@.map_values(|s: &IrStmt| s@)
    }
}

/// A statement that passes control elsewhere: a jump, a branch or a return.
pub open spec fn is_exit(s: IrStmtV) -> bool {
    s is Jmp || s is Beq || s is Ret
}

/// The state of the division after a prefix: the finished blocks and the
/// block being filled. A label closes the block being filled, if it holds
/// anything, and begins the next; a jump, a branch or a return ends the block
/// it joins.
pub open spec fn split_blocks(ss: Seq<IrStmtV>) -> (Seq<Seq<IrStmtV>>, Seq<IrStmtV>)
    decreases ss.len(),
{
    if ss.len() == 0 {
        (Seq::empty(), Seq::empty())
    } else {
        let (done, cur) = split_blocks(ss.drop_last());
        let s = ss.last();
        let (done1, cur1) = if s is Label && cur.len() > 0 {
            (done.push(cur), Seq::<IrStmtV>::empty())
        } else {
            (done, cur)
        };
        if is_exit(s) {
            (done1.push(cur1.push(s)), Seq::empty())
        } else {
            (done1, cur1.push(s))
        }
    }
}

/// The basic blocks of a statement sequence.
pub open spec fn spec_basic_blocks(ss: Seq<IrStmtV>) -> Seq<Seq<IrStmtV>> {
    let (done, cur) = split_blocks(ss);
    if cur.len() > 0 {
        done.push(cur)
    } else {
        done
    }
}

/// The blocks one after the other.
pub open spec fn flatten(bs: Seq<Seq<IrStmtV>>) -> Seq<IrStmtV>
    decreases bs.len(),
{
    if bs.len() == 0 {
        Seq::empty()
    } else {
        flatten(bs.drop_last()) + bs.last()
    }
}

/// Holds no exit, and no label but at its start.
pub open spec fn open_ok(b: Seq<IrStmtV>) -> bool {
    &&& forall|j: int| 0 <= j < b.len() ==> !is_exit(#[trigger] b[j])
    &&& forall|j: int| 0 < j < b.len() ==> !(#[trigger] b[j] is Label)
}

/// A basic block: not empty, an exit only as its last statement and a label
/// only as its first.
pub open spec fn block_ok(b: Seq<IrStmtV>) -> bool {
    &&& b.len() > 0
    &&& forall|j: int| 0 <= j < b.len() - 1 ==> !is_exit(#[trigger] b[j])
    &&& forall|j: int| 0 < j < b.len() ==> !(#[trigger] b[j] is Label)
}

/// Block `b` could not run on into `c`: `b` ends in an exit or `c` begins
/// with a label.
pub open spec fn split_point(b: Seq<IrStmtV>, c: Seq<IrStmtV>) -> bool {
    is_exit(b.last()) || c[0] is Label
}

/// The rules of the division: every block is a basic block, and no two
/// neighbours could be one block.
pub open spec fn blocks_ok(bs: Seq<Seq<IrStmtV>>) -> bool {
    &&& forall|k: int| 0 <= k < bs.len() ==> block_ok(#[trigger] bs[k])
    &&& forall|k: int| 0 <= k < bs.len() - 1 ==> split_point(#[trigger] bs[k], bs[k + 1])
}

spec fn split_inv(done: Seq<Seq<IrStmtV>>, cur: Seq<IrStmtV>) -> bool {
    &&& blocks_ok(done)
    &&& open_ok(cur)
    &&& done.len() > 0 && cur.len() == 0 ==> is_exit(done.last().last())
    &&& done.len() > 0 && cur.len() > 0 ==> split_point(done.last(), cur)
}

proof fn lemma_push_block(done: Seq<Seq<IrStmtV>>, b: Seq<IrStmtV>)
    requires
        blocks_ok(done),
        block_ok(b),
        done.len() > 0 ==> split_point(done.last(), b),
    ensures
        blocks_ok(done.push(b)),
{
    let d = done.push(b);
    assert forall|k: int| 0 <= k < d.len() implies block_ok(#[trigger] d[k]) by {
        if k < done.len() {
            assert(d[k] == done[k]);
        }
    }
    assert forall|k: int| 0 <= k < d.len() - 1 implies split_point(#[trigger] d[k], d[k + 1]) by {
        assert(d[k] == done[k]);
        if k < done.len() - 1 {
            assert(d[k + 1] == done[k + 1]);
        }
    }
}

proof fn lemma_split(ss: Seq<IrStmtV>)
    ensures
        flatten(split_blocks(ss).0) + split_blocks(ss).1 == ss,
        split_inv(split_blocks(ss).0, split_blocks(ss).1),
    decreases ss.len(),
{
    if ss.len() == 0 {
        assert(flatten(Seq::<Seq<IrStmtV>>::empty()) + Seq::<IrStmtV>::empty() =~= ss);
    } else {
        lemma_split(ss.drop_last());
        let (done, cur) = split_blocks(ss.drop_last());
        let s = ss.last();
        assert(ss =~= ss.drop_last().push(s));
        let (done1, cur1) = if s is Label && cur.len() > 0 {
            (done.push(cur), Seq::<IrStmtV>::empty())
        } else {
            (done, cur)
        };
        if s is Label && cur.len() > 0 {
            lemma_push_block(done, cur);
            assert(done.push(cur).drop_last() =~= done);
            assert(flatten(done1) == flatten(done) + cur);
        }
        assert(flatten(done1) + cur1 == flatten(done) + cur);
        assert(open_ok(cur1));
        if is_exit(s) {
            let b = cur1.push(s);
            assert(block_ok(b)) by {
                assert forall|j: int| 0 < j < b.len() implies !(#[trigger] b[j] is Label) by {
                    if j < cur1.len() {
                        assert(b[j] == cur1[j]);
                    }
                }
                assert forall|j: int| 0 <= j < b.len() - 1 implies !is_exit(#[trigger] b[j]) by {
                    assert(b[j] == cur1[j]);
                }
            }
            if done1.len() > 0 {
                if cur1.len() > 0 {
                    assert(b[0] == cur1[0]);
                }
            }
            lemma_push_block(done1, b);
            assert(done1.push(b).drop_last() =~= done1);
            assert(done1.push(b).last() == b);
            assert(flatten(done1.push(b)) == flatten(done1) + b);
            assert(flatten(done1.push(b)) + Seq::<IrStmtV>::empty() =~= flatten(done1) + cur1 + seq![s]);
        } else {
            let c = cur1.push(s);
            assert(open_ok(c)) by {
                assert forall|j: int| 0 < j < c.len() implies !(#[trigger] c[j] is Label) by {
                    if j < cur1.len() {
                        assert(c[j] == cur1[j]);
                    }
                }
                assert forall|j: int| 0 <= j < c.len() implies !is_exit(#[trigger] c[j]) by {
                    if j < cur1.len() {
                        assert(c[j] == cur1[j]);
                    }
                }
            }
            if done1.len() > 0 && cur1.len() > 0 {
                assert(c[0] == cur1[0]);
            }
            assert(flatten(done1) + c =~= flatten(done1) + cur1 + seq![s]);
        }
    }
}

/// Law: the basic blocks, one after the other, are the statements themselves;
/// each is a basic block (not empty, an exit only as its last statement, a
/// label only as its first), and each but the last ends in an exit or is
/// followed by a block that begins with a label, so none could be longer.
pub proof fn lemma_basic_blocks_partition(ss: Seq<IrStmtV>)
    ensures
        flatten(spec_basic_blocks(ss)) == ss,
        blocks_ok(spec_basic_blocks(ss)),
{
    lemma_split(ss);
    let (done, cur) = split_blocks(ss);
    if cur.len() > 0 {
        assert(done.push(cur).drop_last() =~= done);
        lemma_push_block(done, cur);
    } else {
        assert(flatten(done) + cur =~= flatten(done));
    }
}

/// Divides the statements of a function into basic blocks.
pub fn basic_blocks<'a>(stmts: &'a Vec<IrStmt>) -> (r: Vec<BasicBlock<'a>>)
    ensures
        r@.map_values(|b: BasicBlock<'a>| b.view()) == spec_basic_blocks(stmts_view(stmts@)),
        forall|k: int| 0 <= k < r@.len() ==> (#[trigger] r@[k]).edges@.len() == 0,
{
    let ghost sv = stmts_view(stmts@);
    let mut basic_blocks: Vec<BasicBlock<'a>> = vec![];
    let mut first = BasicBlock::new();
    let mut i: usize = 0;
    assert(sv.subrange(0, 0) =~= Seq::<IrStmtV>::empty());
    assert(first.view() =~= Seq::<IrStmtV>::empty());
    assert(basic_blocks@.map_values(|b: BasicBlock<'a>| b.view()) =~= Seq::<Seq<IrStmtV>>::empty());
    while i < stmts.len()
        invariant
            i <= stmts@.len(),
            sv == stmts_view(stmts@),
            split_blocks(sv.subrange(0, i as int)) == (
                basic_blocks@.map_values(|b: BasicBlock<'a>| b.view()),
                first.view(),
            ),
            first.edges@.len() == 0,
            forall|k: int| 0 <= k < basic_blocks@.len() ==> (#[trigger] basic_blocks@[k]).edges@.len() == 0,
        decreases stmts@.len() - i,
    {
        assert(sv.subrange(0, i + 1).drop_last() =~= sv.subrange(0, i as int));
        let s = &stmts[i];
        assert(sv.subrange(0, i + 1).last() == s@);
        let ghost old_blocks = basic_blocks@;
        let ghost old_first = first.view();
        let is_label = match s {
            IrStmt::Label(_) => true,
            _ => false,
        };
        if is_label && first.stmts.len() > 0 {
            basic_blocks.push(first);
            first = BasicBlock::new();
            assert(basic_blocks@.map_values(|b: BasicBlock<'a>| b.view()) =~= old_blocks.map_values(
                |b: BasicBlock<'a>| b.view(),
            ).push(old_first));
            assert(first.view() =~= Seq::<IrStmtV>::empty());
        }
        let ghost mid_blocks = basic_blocks@;
        let ghost mid = first.view();
        first.stmts.push(s);
        assert(first.view() =~= mid.push(s@));
        let is_exit_stmt = match s {
            IrStmt::Jmp(_) | IrStmt::Beq(_, _) | IrStmt::Ret(_) => true,
            _ => false,
        };
        if is_exit_stmt {
            let ghost full = first.view();
            basic_blocks.push(first);
            first = BasicBlock::new();
            assert(basic_blocks@.map_values(|b: BasicBlock<'a>| b.view()) =~= mid_blocks.map_values(
                |b: BasicBlock<'a>| b.view(),
            ).push(full));
            assert(first.view() =~= Seq::<IrStmtV>::empty());
        }
        i = i + 1;
    }
    assert(sv.subrange(0, i as int) =~= sv);
    if first.stmts.len() > 0 {
        let ghost old_blocks = basic_blocks@;
        let ghost last = first.view();
        basic_blocks.push(first);
        assert(basic_blocks@.map_values(|b: BasicBlock<'a>| b.view()) =~= old_blocks.map_values(
            |b: BasicBlock<'a>| b.view(),
        ).push(last));
    }
    basic_blocks
}

} // verus!
