//! The intermediate representation, and the lowering of the syntax tree into it.
use vstd::prelude::*;
use std::collections::VecDeque;
use crate::text::{dec_nat, push_u64};
use crate::ast::{exprs_view, lemma_exprs_view_last, Expr, ExprV, Unary, UnaryV, IndexExprV, Stmt, StmtV, BlockItem, BlockItemV, Decl, DeclV, Func, FuncV, Param, ParamV, Prog, ProgV, Type};
use crate::symbols::{SymTab, Symbol, SymbolV, resolve, lemma_resolve_contains};
use crate::regeister::{VirtualRegeister, VRegState, ArgTunnel, TunnelState, tunnel_counts, tunnel_set_arg, tunnel_get_arg, tunnel_is_match};

verus! {

#[derive(Debug, Clone, Copy, PartialEq, Eq, Hash, Structural)]
pub enum LabelType {
    Other,
    Cond,
    Update,
}

#[derive(Debug)]
pub struct Label {
    pub name: String,
    pub lt: LabelType,
}

impl Label {
    fn new(name: String, lt: LabelType) -> (r: Self)
        ensures
            r.name@ == name@,
            r.lt == lt,
    {
        Self { name, lt }
    }
}

/// The labels of one branch construct, by kind, oldest first.
#[derive(Debug)]
struct Frame {
    other: Vec<Label>,
    cond: Vec<Label>,
    update: Vec<Label>,
}

pub struct FrameV {
    pub other: Seq<Seq<char>>,
    pub cond: Seq<Seq<char>>,
    pub update: Seq<Seq<char>>,
}

impl FrameV {
    pub open spec fn empty() -> FrameV {
        FrameV { other: Seq::empty(), cond: Seq::empty(), update: Seq::empty() }
    }

    pub open spec fn get(self, lt: LabelType) -> Seq<Seq<char>> {
        match lt {
            LabelType::Other => self.other,
            LabelType::Cond => self.cond,
            LabelType::Update => self.update,
        }
    }

    pub open spec fn push(self, lt: LabelType, name: Seq<char>) -> FrameV {
        match lt {
            LabelType::Other => FrameV { other: self.other.push(name), ..self },
            LabelType::Cond => FrameV { cond: self.cond.push(name), ..self },
            LabelType::Update => FrameV { update: self.update.push(name), ..self },
        }
    }
}

/// The name of the `n`-th label.
pub open spec fn label_name(n: nat) -> Seq<char> {
    seq!['L'] + dec_nat(n)
}

/// Abstract state of the label generator: the number of labels made so far,
/// and the stack of branch frames. Labels are always filed in the bottom
/// frame, so `label` gives the oldest label of a kind in the outermost open
/// branch construct. Only `continue` and `break` look labels up that way;
/// inside a construct nested in another, they jump to the outer construct's
/// label. Branches, conditional expressions and loops use the names of the
/// labels they make themselves.
pub struct BranchState {
    pub counter: nat,
    pub frames: Seq<FrameV>,
}

impl BranchState {
    /// Makes the next label of kind `lt`.
    pub open spec fn create(self, lt: LabelType) -> (BranchState, Seq<char>) {
        let name = label_name(self.counter + 1);
        (
            BranchState {
                counter: self.counter + 1,
                frames: self.frames.update(0, self.frames[0].push(lt, name)),
            },
            name,
        )
    }

    pub open spec fn can_create(self) -> bool {
        self.counter < u32::MAX && self.frames.len() > 0
    }

    /// The oldest label of kind `lt` in the bottom frame.
    pub open spec fn label(self, lt: LabelType) -> Seq<char> {
        self.frames[0].get(lt)[0]
    }

    pub open spec fn has_label(self, lt: LabelType) -> bool {
        self.frames.len() > 0 && self.frames[0].get(lt).len() > 0
    }

    pub open spec fn enter_branch(self) -> BranchState {
        BranchState { counter: self.counter, frames: self.frames.push(FrameV::empty()) }
    }

    pub open spec fn leave_branch(self) -> BranchState {
        BranchState { counter: self.counter, frames: self.frames.drop_last() }
    }
}

/// Makes the labels of branches and loops.
pub struct BranchLabel {
    counter: u32,
    branch_stack: Vec<Frame>,
}

spec fn labels_view(v: Seq<Label>) -> Seq<Seq<char>> {
    v.map_values(|l: Label| l.name@)
}

spec fn frame_view(f: Frame) -> FrameV {
    FrameV { other: labels_view(f.other@), cond: labels_view(f.cond@), update: labels_view(f.update@) }
}

spec fn frame_wf(f: Frame) -> bool {
    &&& forall|i: int| 0 <= i < f.other@.len() ==> (#[trigger] f.other@[i]).lt == LabelType::Other
    &&& forall|i: int| 0 <= i < f.cond@.len() ==> (#[trigger] f.cond@[i]).lt == LabelType::Cond
    &&& forall|i: int| 0 <= i < f.update@.len() ==> (#[trigger] f.update@[i]).lt == LabelType::Update
}

impl View for BranchLabel {
    type V = BranchState;

    closed spec fn view(&self) -> BranchState {
        BranchState {
            counter: self.counter as nat,
            frames: self.branch_stack@.map_values(|f: Frame| frame_view(f)),
        }
    }
}

fn lit(s: &str) -> (r: String)
    ensures
        r@ == s@,
{
    String::from_str(s)
}

impl BranchLabel {
    #[verifier::type_invariant]
    spec fn frames_wf(self) -> bool {
        forall|i: int| 0 <= i < self.branch_stack@.len() ==> frame_wf(#[trigger] self.branch_stack@[i])
    }

    /// A label maker with no labels made and no branch entered.
    pub fn init() -> (r: Self)
        ensures
            r@ == (BranchState { counter: 0, frames: Seq::empty() }),
    {
        let r = Self { counter: 0, branch_stack: Vec::new() };
        assert(r@.frames =~= Seq::<FrameV>::empty());
        r
    }

    /// Whether a label can be made: a branch is entered and the count has room.
    pub fn can_create(&self) -> (b: bool)
        ensures
            b == self@.can_create(),
    {
        self.counter < u32::MAX && self.branch_stack.len() > 0
    }

    /// Whether the bottom frame holds a label of kind `lt`.
    pub fn has_label(&self, lt: LabelType) -> (b: bool)
        ensures
            b == self@.has_label(lt),
    {
        if self.branch_stack.len() == 0 {
            false
        } else {
            let f = &self.branch_stack[0];
            match lt {
                LabelType::Other => f.other.len() > 0,
                LabelType::Cond => f.cond.len() > 0,
                LabelType::Update => f.update.len() > 0,
            }
        }
    }

    /// Whether a branch is entered.
    pub fn has_frame(&self) -> (b: bool)
        ensures
            b == (self@.frames.len() > 0),
    {
        self.branch_stack.len() > 0
    }

    /// Makes the next label of kind `lt`, files it in the bottom frame and
    /// returns its name.
    fn create(&mut self, lt: LabelType) -> (r: String)
        requires
            old(self)@.can_create(),
        ensures
            (final(self)@, r@) == old(self)@.create(lt),
    {
        proof {
            use_type_invariant(&*self);
        }
        let ghost old_v = self@;
        self.counter = self.counter + 1;
        let mut name = lit("L");
        proof {
            reveal_strlit("L");
        }
        assert("L"@ =~= seq!['L']);
        push_u64(&mut name, self.counter as u64);
        let n = name.clone();
        let mut stack: Vec<Frame> = Vec::new();
        std::mem::swap(&mut stack, &mut self.branch_stack);
        let ghost old_stack = stack@;
        let mut f = stack.remove(0);
        proof {
            assert(frame_wf(old_stack[0]));
        }
        let ghost old_f = f;
        match lt {
            LabelType::Other => f.other.push(Label::new(name, lt)),
            LabelType::Cond => f.cond.push(Label::new(name, lt)),
            LabelType::Update => f.update.push(Label::new(name, lt)),
        }
        proof {
            assert(labels_view(f.other@) =~= frame_view(old_f).push(lt, n@).other);
            assert(labels_view(f.cond@) =~= frame_view(old_f).push(lt, n@).cond);
            assert(labels_view(f.update@) =~= frame_view(old_f).push(lt, n@).update);
            assert(frame_wf(f));
        }
        stack.insert(0, f);
        proof {
            assert forall|i: int| 0 <= i < stack@.len() implies frame_wf(#[trigger] stack@[i]) by {
                if i > 0 {
                    assert(stack@[i] == old_stack[i]);
                }
            }
        }
        self.branch_stack = stack;
        proof {
            assert(self@.frames =~= old_v.create(lt).0.frames);
        }
        n
    }

    /// The oldest label of kind `lt` in the bottom frame.
    pub fn label(&self, lt: LabelType) -> (r: &Label)
        requires
            self@.has_label(lt),
        ensures
            r.name@ == self@.label(lt),
            r.lt == lt,
    {
        proof {
            use_type_invariant(self);
            assert(frame_wf(self.branch_stack@[0]));
        }
        let f = &self.branch_stack[0];
        match lt {
            LabelType::Other => &f.other[0],
            LabelType::Cond => &f.cond[0],
            LabelType::Update => &f.update[0],
        }
    }

    /// Opens a new branch frame.
    pub fn enter_branch(&mut self)
        ensures
            final(self)@ == old(self)@.enter_branch(),
    {
        proof {
            use_type_invariant(&*self);
        }
        let mut stack: Vec<Frame> = Vec::new();
        std::mem::swap(&mut stack, &mut self.branch_stack);
        let ghost old_stack = stack@;
        stack.push(Frame { other: Vec::new(), cond: Vec::new(), update: Vec::new() });
        proof {
            assert forall|i: int| 0 <= i < stack@.len() implies frame_wf(#[trigger] stack@[i]) by {
                if i < old_stack.len() {
                    assert(stack@[i] == old_stack[i]);
                }
            }
        }
        self.branch_stack = stack;
        proof {
            assert(labels_view(Seq::<Label>::empty()) =~= Seq::<Seq<char>>::empty());
            assert(self@.frames =~= old(self)@.enter_branch().frames);
        }
    }

    /// Closes the top branch frame.
    pub fn leave_branch(&mut self)
        requires
            old(self)@.frames.len() > 0,
        ensures
            final(self)@ == old(self)@.leave_branch(),
    {
        proof {
            use_type_invariant(&*self);
        }
        let mut stack: Vec<Frame> = Vec::new();
        std::mem::swap(&mut stack, &mut self.branch_stack);
        let ghost old_stack = stack@;
        let _ = stack.pop();
        proof {
            assert forall|i: int| 0 <= i < stack@.len() implies frame_wf(#[trigger] stack@[i]) by {
                assert(stack@[i] == old_stack[i]);
            }
        }
        self.branch_stack = stack;
        proof {
            assert(self@.frames =~= old(self)@.leave_branch().frames);
        }
    }
}

#[derive(Debug)]
pub struct IrProg {
    pub funcs: Vec<IrFunc>,
    pub global_vars: Vec<IrStmt>,
}

#[derive(Debug)]
pub struct IrFunc {
    pub name: String,
    pub params: Vec<IrStmt>,
    pub stmts: Vec<IrStmt>,
}

#[derive(Debug)]
pub enum IrStmt {
    Add(String, String, String),
    Sub(String, String, String),
    Mul(String, String, String),
    Div(String, String, String),
    Mod(String, String, String),
    Neg(String, String),
    Or(String, String, String),
    And(String, String, String),
    Equal(String, String, String, String),
    NotEqual(String, String, String, String),
    Lt(String, String, String),
    Let(String, String, String, String, String, String),
    Gt(String, String, String),
    Get(String, String, String, String, String, String),
    Ldc(i32, String),
    Ret(String),
    // env, id, reg
    Assign(Vec<u32>, String, String),
    // env, id
    Ref(Vec<u32>, String),
    // reg label
    Beq(String, String),
    // jump label
    Jmp(String),
    Label(String),
    // scope var name func name
    Param(Vec<u32>, String, String),
    // params (tmp reg, arg reg) label return reg
    Call(Vec<(String, String)>, String, String),
    // scope,name,reg, base reg, num
    Load(Vec<u32>, String, String, String, u32),
    // reg, global var name
    LoadSymbol(String, String),
    // var name val
    DeclGlobal(String, i32),
    // var name,
    DeclGlobalArray(String, VecDeque<i32>),
    // scope name reg size
    Alloc(Vec<u32>, String, String, u32),
}

pub type Str = Seq<char>;

pub enum IrStmtV {
    Add(Str, Str, Str),
    Sub(Str, Str, Str),
    Mul(Str, Str, Str),
    Div(Str, Str, Str),
    Mod(Str, Str, Str),
    Neg(Str, Str),
    Or(Str, Str, Str),
    And(Str, Str, Str),
    Equal(Str, Str, Str, Str),
    NotEqual(Str, Str, Str, Str),
    Lt(Str, Str, Str),
    Let(Str, Str, Str, Str, Str, Str),
    Gt(Str, Str, Str),
    Get(Str, Str, Str, Str, Str, Str),
    Ldc(i32, Str),
    Ret(Str),
    Assign(Seq<u32>, Str, Str),
    Ref(Seq<u32>, Str),
    Beq(Str, Str),
    Jmp(Str),
    Label(Str),
    Param(Seq<u32>, Str, Str),
    Call(Seq<(Str, Str)>, Str, Str),
    Load(Seq<u32>, Str, Str, Str, u32),
    LoadSymbol(Str, Str),
    DeclGlobal(Str, i32),
    DeclGlobalArray(Str, Seq<i32>),
    Alloc(Seq<u32>, Str, Str, u32),
}

pub struct IrFuncV {
    pub name: Str,
    pub params: Seq<IrStmtV>,
    pub stmts: Seq<IrStmtV>,
}

pub struct IrProgV {
    pub funcs: Seq<IrFuncV>,
    pub global_vars: Seq<IrStmtV>,
}

pub open spec fn pairs_view(v: Seq<(String, String)>) -> Seq<(Str, Str)> {
    v.map_values(|p: (String, String)| (p.0@, p.1@))
}

impl View for IrStmt {
    type V = IrStmtV;

    open spec fn view(&self) -> IrStmtV {
        match *self {
            IrStmt::Add(a, b, c) => IrStmtV::Add(a@, b@, c@),
            IrStmt::Sub(a, b, c) => IrStmtV::Sub(a@, b@, c@),
            IrStmt::Mul(a, b, c) => IrStmtV::Mul(a@, b@, c@),
            IrStmt::Div(a, b, c) => IrStmtV::Div(a@, b@, c@),
            IrStmt::Mod(a, b, c) => IrStmtV::Mod(a@, b@, c@),
            IrStmt::Neg(a, b) => IrStmtV::Neg(a@, b@),
            IrStmt::Or(a, b, c) => IrStmtV::Or(a@, b@, c@),
            IrStmt::And(a, b, c) => IrStmtV::And(a@, b@, c@),
            IrStmt::Equal(a, b, c, d) => IrStmtV::Equal(a@, b@, c@, d@),
            IrStmt::NotEqual(a, b, c, d) => IrStmtV::NotEqual(a@, b@, c@, d@),
            IrStmt::Lt(a, b, c) => IrStmtV::Lt(a@, b@, c@),
            IrStmt::Let(a, b, c, d, e, f) => IrStmtV::Let(a@, b@, c@, d@, e@, f@),
            IrStmt::Gt(a, b, c) => IrStmtV::Gt(a@, b@, c@),
            IrStmt::Get(a, b, c, d, e, f) => IrStmtV::Get(a@, b@, c@, d@, e@, f@),
            IrStmt::Ldc(i, a) => IrStmtV::Ldc(i, a@),
            IrStmt::Ret(a) => IrStmtV::Ret(a@),
            IrStmt::Assign(s, a, b) => IrStmtV::Assign(s@, a@, b@),
            IrStmt::Ref(s, a) => IrStmtV::Ref(s@, a@),
            IrStmt::Beq(a, b) => IrStmtV::Beq(a@, b@),
            IrStmt::Jmp(a) => IrStmtV::Jmp(a@),
            IrStmt::Label(a) => IrStmtV::Label(a@),
            IrStmt::Param(s, a, b) => IrStmtV::Param(s@, a@, b@),
            IrStmt::Call(ps, a, b) => IrStmtV::Call(pairs_view(ps@), a@, b@),
            IrStmt::Load(s, a, b, c, n) => IrStmtV::Load(s@, a@, b@, c@, n),
            IrStmt::LoadSymbol(a, b) => IrStmtV::LoadSymbol(a@, b@),
            IrStmt::DeclGlobal(a, i) => IrStmtV::DeclGlobal(a@, i),
            IrStmt::DeclGlobalArray(a, d) => IrStmtV::DeclGlobalArray(a@, d@),
            IrStmt::Alloc(s, a, b, n) => IrStmtV::Alloc(s@, a@, b@, n),
        }
    }
}

pub open spec fn ir_funcs_view(v: Seq<IrFunc>) -> Seq<IrFuncV> {
    v.map_values(|f: IrFunc| f@)
}

pub open spec fn stmts_view(v: Seq<IrStmt>) -> Seq<IrStmtV> {
    v.map_values(|s: IrStmt| s@)
}

impl View for IrFunc {
    type V = IrFuncV;

    open spec fn view(&self) -> IrFuncV {
        IrFuncV { name: self.name@, params: stmts_view(self.params@), stmts: stmts_view(self.stmts@) }
    }
}

impl View for IrProg {
    type V = IrProgV;

    open spec fn view(&self) -> IrProgV {
        IrProgV { funcs: ir_funcs_view(self.funcs@), global_vars: stmts_view(self.global_vars@) }
    }
}

fn copy_pairs(v: &Vec<(String, String)>) -> (r: Vec<(String, String)>)
    ensures
        pairs_view(r@) == pairs_view(v@),
{
    let mut r: Vec<(String, String)> = Vec::new();
    let mut i: usize = 0;
    while i < v.len()
        invariant
            i <= v@.len(),
            r@.len() == i,
            forall|j: int| 0 <= j < i ==> (#[trigger] r@[j]).0@ == v@[j].0@ && r@[j].1@ == v@[j].1@,
        decreases v@.len() - i,
    {
        let p = &v[i];
        r.push((p.0.clone(), p.1.clone()));
        i = i + 1;
    }
    assert(pairs_view(r@) =~= pairs_view(v@));
    r
}

/// A copy of an IR statement.
pub fn copy_stmt(s: &IrStmt) -> (r: IrStmt)
    ensures
        r@ == s@,
{
    match s {
        IrStmt::Add(a, b, c) => IrStmt::Add(a.clone(), b.clone(), c.clone()),
        IrStmt::Sub(a, b, c) => IrStmt::Sub(a.clone(), b.clone(), c.clone()),
        IrStmt::Mul(a, b, c) => IrStmt::Mul(a.clone(), b.clone(), c.clone()),
        IrStmt::Div(a, b, c) => IrStmt::Div(a.clone(), b.clone(), c.clone()),
        IrStmt::Mod(a, b, c) => IrStmt::Mod(a.clone(), b.clone(), c.clone()),
        IrStmt::Neg(a, b) => IrStmt::Neg(a.clone(), b.clone()),
        IrStmt::Or(a, b, c) => IrStmt::Or(a.clone(), b.clone(), c.clone()),
        IrStmt::And(a, b, c) => IrStmt::And(a.clone(), b.clone(), c.clone()),
        IrStmt::Equal(a, b, c, d) => IrStmt::Equal(a.clone(), b.clone(), c.clone(), d.clone()),
        IrStmt::NotEqual(a, b, c, d) => IrStmt::NotEqual(a.clone(), b.clone(), c.clone(), d.clone()),
        IrStmt::Lt(a, b, c) => IrStmt::Lt(a.clone(), b.clone(), c.clone()),
        IrStmt::Let(a, b, c, d, e, f) => IrStmt::Let(a.clone(), b.clone(), c.clone(), d.clone(), e.clone(), f.clone()),
        IrStmt::Gt(a, b, c) => IrStmt::Gt(a.clone(), b.clone(), c.clone()),
        IrStmt::Get(a, b, c, d, e, f) => IrStmt::Get(a.clone(), b.clone(), c.clone(), d.clone(), e.clone(), f.clone()),
        IrStmt::Ldc(i, a) => IrStmt::Ldc(*i, a.clone()),
        IrStmt::Ret(a) => IrStmt::Ret(a.clone()),
        IrStmt::Assign(sc, a, b) => IrStmt::Assign(sc.clone(), a.clone(), b.clone()),
        IrStmt::Ref(sc, a) => IrStmt::Ref(sc.clone(), a.clone()),
        IrStmt::Beq(a, b) => IrStmt::Beq(a.clone(), b.clone()),
        IrStmt::Jmp(a) => IrStmt::Jmp(a.clone()),
        IrStmt::Label(a) => IrStmt::Label(a.clone()),
        IrStmt::Param(sc, a, b) => IrStmt::Param(sc.clone(), a.clone(), b.clone()),
        IrStmt::Call(ps, a, b) => IrStmt::Call(copy_pairs(ps), a.clone(), b.clone()),
        IrStmt::Load(sc, a, b, c, n) => IrStmt::Load(sc.clone(), a.clone(), b.clone(), c.clone(), *n),
        IrStmt::LoadSymbol(a, b) => IrStmt::LoadSymbol(a.clone(), b.clone()),
        IrStmt::DeclGlobal(a, i) => IrStmt::DeclGlobal(a.clone(), *i),
        IrStmt::DeclGlobalArray(a, d) => IrStmt::DeclGlobalArray(a.clone(), crate::symbols::copy_deque(d)),
        IrStmt::Alloc(sc, a, b, n) => IrStmt::Alloc(sc.clone(), a.clone(), b.clone(), *n),
    }
}

/// A copy of a sequence of IR statements.
pub fn copy_stmts(v: &Vec<IrStmt>) -> (r: Vec<IrStmt>)
    ensures
        stmts_view(r@) == stmts_view(v@),
{
    let mut r: Vec<IrStmt> = Vec::new();
    let mut i: usize = 0;
    while i < v.len()
        invariant
            i <= v@.len(),
            r@.len() == i,
            forall|j: int| 0 <= j < i ==> (#[trigger] r@[j])@ == v@[j]@,
        decreases v@.len() - i,
    {
        r.push(copy_stmt(&v[i]));
        i = i + 1;
    }
    assert(stmts_view(r@) =~= stmts_view(v@));
    r
}

// ---------------------------------------------------------------------------
// What the lowering produces.
// ---------------------------------------------------------------------------

pub type SymMap = Map<(Seq<u32>, Seq<char>), SymbolV>;

pub open spec fn in_i32(x: int) -> bool {
    i32::MIN <= x <= i32::MAX
}

/// `init * s[0] * s[1] * ...`, multiplied from the left, where every partial
/// product fits in an `i32`.
pub open spec fn checked_mul_all(init: int, s: Seq<i32>) -> Option<int>
    decreases s.len(),
{
    if s.len() == 0 {
        if in_i32(init) { Some(init) } else { None }
    } else {
        match checked_mul_all(init, s.drop_last()) {
            Some(p) => if in_i32(p * s.last()) { Some(p * s.last()) } else { None },
            None => None,
        }
    }
}

/// The byte offset of element `idx` of an array with dimensions `range`:
/// each index times the product of the dimensions after its own, times 4,
/// every step within `i32`.
pub open spec fn offset_steps(range: Seq<i32>, idx: Seq<i32>, acc: int) -> Option<int>
    decreases idx.len(),
{
    if idx.len() == 0 {
        Some(acc)
    } else if range.len() == 0 {
        None
    } else {
        match checked_mul_all(1, range.drop_first()) {
            Some(p) => {
                let step = idx[0] * p;
                if in_i32(step) && in_i32(acc + step) {
                    offset_steps(range.drop_first(), idx.drop_first(), acc + step)
                } else {
                    None
                }
            },
            None => None,
        }
    }
}

pub open spec fn index_offset(range: Seq<i32>, idx: Seq<i32>) -> Option<int> {
    match offset_steps(range, idx, 0) {
        Some(o) => if in_i32(o * 4) { Some(o * 4) } else { None },
        None => None,
    }
}

/// The state of the lowering: argument registers, symbol table, labels and
/// virtual registers.
pub struct GenV {
    pub tunnel: TunnelState,
    pub table: SymMap,
    pub bl: BranchState,
    pub r: VRegState,
}

pub open spec fn global_scope() -> Seq<u32> {
    seq![1u32]
}

pub open spec fn g_near(g: GenV) -> Option<(GenV, Str)> {
    if g.r.near.len() > 0 {
        Some((GenV { r: g.r.near().0, ..g }, g.r.near().1))
    } else {
        None
    }
}

pub open spec fn g_eat(g: GenV) -> Option<(GenV, Str)> {
    if g.r.counter < u64::MAX {
        Some((GenV { r: g.r.eat().0, ..g }, g.r.eat().1))
    } else {
        None
    }
}

pub open spec fn g_put_near(g: GenV, reg: Str) -> GenV {
    GenV { r: g.r.put_near(reg), ..g }
}

pub open spec fn g_create(g: GenV, lt: LabelType) -> Option<(GenV, Str)> {
    if g.bl.can_create() {
        Some((GenV { bl: g.bl.create(lt).0, ..g }, g.bl.create(lt).1))
    } else {
        None
    }
}

pub open spec fn g_label(g: GenV, lt: LabelType) -> Option<Str> {
    if g.bl.has_label(lt) {
        Some(g.bl.label(lt))
    } else {
        None
    }
}

pub open spec fn g_enter(g: GenV) -> GenV {
    GenV { bl: g.bl.enter_branch(), ..g }
}

pub open spec fn g_leave(g: GenV) -> Option<GenV> {
    if g.bl.frames.len() > 0 {
        Some(GenV { bl: g.bl.leave_branch(), ..g })
    } else {
        None
    }
}

/// Records `reg` as the virtual register of (`scope`, `name`) when the
/// variable is declared and has none yet.
pub open spec fn g_set_virtual(g: GenV, scope: Seq<u32>, name: Str, reg: Str) -> GenV {
    let k = (scope, name);
    if g.table.contains_key(k) && !g.table[k].alloc_virtual_reg {
        GenV { table: g.table.insert(k, g.table[k].with_reg(reg, true, false)), ..g }
    } else {
        g
    }
}

/// Gives (`scope`, `name`) a fresh virtual register when the variable is
/// declared and has none yet.
pub open spec fn g_alloc_virtual(g: GenV, scope: Seq<u32>, name: Str) -> Option<GenV> {
    let k = (scope, name);
    if g.table.contains_key(k) && !g.table[k].alloc_virtual_reg {
        match g_eat(g) {
            Some((g1, t)) => Some(g_set_virtual(g1, scope, name, t)),
            None => None,
        }
    } else {
        Some(g)
    }
}

pub open spec fn is_bin3(e: ExprV) -> bool {
    ||| e is Add
    ||| e is Sub
    ||| e is Mul
    ||| e is Div
    ||| e is Mod
    ||| e is Lt
    ||| e is Gt
    ||| e is And
    ||| e is Or
}

pub open spec fn is_bin4(e: ExprV) -> bool {
    e is Equals || e is NotEquals
}

pub open spec fn is_bin6(e: ExprV) -> bool {
    e is Let || e is Get
}

pub open spec fn is_binary(e: ExprV) -> bool {
    is_bin3(e) || is_bin4(e) || is_bin6(e)
}

/// The operands of a binary expression.
pub open spec fn bin_operands(e: ExprV) -> (ExprV, ExprV) {
    match e {
        ExprV::Add(a, b) => (*a, *b),
        ExprV::Sub(a, b) => (*a, *b),
        ExprV::Mul(a, b) => (*a, *b),
        ExprV::Div(a, b) => (*a, *b),
        ExprV::Mod(a, b) => (*a, *b),
        ExprV::Lt(a, b) => (*a, *b),
        ExprV::Gt(a, b) => (*a, *b),
        ExprV::Let(a, b) => (*a, *b),
        ExprV::Get(a, b) => (*a, *b),
        ExprV::And(a, b) => (*a, *b),
        ExprV::Or(a, b) => (*a, *b),
        ExprV::NotEquals(a, b) => (*a, *b),
        ExprV::Equals(a, b) => (*a, *b),
        _ => (ExprV::Null, ExprV::Null),
    }
}

/// The statement of a binary expression, from the registers it pops and takes.
pub open spec fn bin_stmt(e: ExprV, regs: Seq<Str>) -> IrStmtV {
    match e {
        ExprV::Add(..) => IrStmtV::Add(regs[0], regs[1], regs[2]),
        ExprV::Sub(..) => IrStmtV::Sub(regs[0], regs[1], regs[2]),
        ExprV::Mul(..) => IrStmtV::Mul(regs[0], regs[1], regs[2]),
        ExprV::Div(..) => IrStmtV::Div(regs[0], regs[1], regs[2]),
        ExprV::Mod(..) => IrStmtV::Mod(regs[0], regs[1], regs[2]),
        ExprV::Lt(..) => IrStmtV::Lt(regs[0], regs[1], regs[2]),
        ExprV::Gt(..) => IrStmtV::Gt(regs[0], regs[1], regs[2]),
        ExprV::And(..) => IrStmtV::And(regs[0], regs[1], regs[2]),
        ExprV::Or(..) => IrStmtV::Or(regs[0], regs[1], regs[2]),
        ExprV::Equals(..) => IrStmtV::Equal(regs[0], regs[1], regs[2], regs[3]),
        ExprV::NotEquals(..) => IrStmtV::NotEqual(regs[0], regs[1], regs[2], regs[3]),
        ExprV::Let(..) => IrStmtV::Let(regs[0], regs[1], regs[2], regs[3], regs[4], regs[5]),
        _ => IrStmtV::Get(regs[0], regs[1], regs[2], regs[3], regs[4], regs[5]),
    }
}

/// How many fresh registers a binary expression takes.
pub open spec fn bin_fresh(e: ExprV) -> nat {
    if is_bin3(e) { 1 } else if is_bin4(e) { 2 } else { 4 }
}

/// The statement of a binary expression once its operands are computed: it
/// pops the operands' two registers and takes `bin_fresh(e)` fresh ones.
pub open spec fn emit_bin(g: GenV, e: ExprV) -> Option<(GenV, IrStmtV)> {
    match g_near(g) {
        Some((g1, t1)) => match g_near(g1) {
            Some((g2, t2)) => match g_eat(g2) {
                Some((g3, t3)) => if is_bin3(e) {
                    Some((g3, bin_stmt(e, seq![t1, t2, t3])))
                } else {
                    match g_eat(g3) {
                        Some((g4, t4)) => if is_bin4(e) {
                            Some((g4, bin_stmt(e, seq![t1, t2, t3, t4])))
                        } else {
                            match g_eat(g4) {
                                Some((g5, t5)) => match g_eat(g5) {
                                    Some((g6, t6)) => Some((g6, bin_stmt(e, seq![t1, t2, t3, t4, t5, t6]))),
                                    None => None,
                                },
                                None => None,
                            }
                        },
                        None => None,
                    }
                },
                None => None,
            },
            None => None,
        },
        None => None,
    }
}

pub open spec fn gen_expr(g: GenV, e: ExprV) -> Option<(GenV, Seq<IrStmtV>)>
    decreases e, 2nat,
{
    match e {
        ExprV::Unary(u) => gen_unary(g, u),
        ExprV::Assign(env, id, x) => match gen_expr(g, *x) {
            Some((g1, s1)) => match g_near(g1) {
                Some((g2, t2)) => match g_alloc_virtual(g2, env, id) {
                    Some(g3) => Some((g3, s1.push(IrStmtV::Assign(env, id, t2)))),
                    None => None,
                },
                None => None,
            },
            None => None,
        },
        ExprV::Null => Some((g, Seq::empty())),
        ExprV::Cond(..) => gen_cond(g, e),
        _ => match gen_operands(g, e) {
            Some((g1, s1)) => match emit_bin(g1, e) {
                Some((g2, st)) => Some((g2, s1.push(st))),
                None => None,
            },
            None => None,
        },
    }
}

/// The statements computing both operands of a binary expression.
pub open spec fn gen_operands(g: GenV, e: ExprV) -> Option<(GenV, Seq<IrStmtV>)>
    decreases e, 1nat,
{
    match e {
        ExprV::Add(a, b) | ExprV::Sub(a, b) | ExprV::Mul(a, b) | ExprV::Div(a, b) | ExprV::Mod(a, b)
        | ExprV::Lt(a, b) | ExprV::Gt(a, b) | ExprV::Let(a, b) | ExprV::Get(a, b) | ExprV::And(a, b)
        | ExprV::Or(a, b) | ExprV::NotEquals(a, b) | ExprV::Equals(a, b) => match gen_expr(g, *a) {
            Some((g1, s1)) => match gen_expr(g1, *b) {
                Some((g2, s2)) => Some((g2, s1 + s2)),
                None => None,
            },
            None => None,
        },
        _ => None,
    }
}

/// A conditional expression, like an `if`-`else`: the condition, a branch
/// to the else label when it is 0, the then-value, a jump to the end label,
/// the else label, the else-value and the end label.
pub open spec fn gen_cond(g: GenV, e: ExprV) -> Option<(GenV, Seq<IrStmtV>)>
    decreases e, 1nat,
{
    match e {
        ExprV::Cond(c, t, o) => match g_create(g_enter(g), LabelType::Other) {
            Some((g1, else_b)) => match g_create(g1, LabelType::Other) {
                Some((g2, other_b)) => match gen_expr(g2, *c) {
                    Some((g3, s1)) => match g_near(g3) {
                        Some((g4, reg)) => match gen_expr(g4, *t) {
                            Some((g5, s2)) => match gen_expr(g5, *o) {
                                Some((g6, s3)) => match g_leave(g6) {
                                    Some(g7) => Some((
                                        g7,
                                        s1.push(IrStmtV::Beq(reg, else_b)) + s2.push(IrStmtV::Jmp(other_b)).push(
                                            IrStmtV::Label(else_b),
                                        ) + s3.push(IrStmtV::Label(other_b)),
                                    )),
                                    None => None,
                                },
                                None => None,
                            },
                            None => None,
                        },
                        None => None,
                    },
                    None => None,
                },
                None => None,
            },
            None => None,
        },
        _ => None,
    }
}

/// A variable read: a global is loaded from its symbol, a local is referred
/// to through its register.
pub open spec fn gen_ident(g: GenV, env: Seq<u32>, id: Str) -> Option<(GenV, Seq<IrStmtV>)> {
    match resolve(g.table, env, id) {
        None => None,
        Some(sc) => if sc == global_scope() {
            match g_eat(g) {
                Some((g1, reg)) => match g_eat(g_set_virtual(g1, global_scope(), id, reg)) {
                    Some((g3, t)) => Some((
                        g_put_near(g3, reg),
                        Seq::empty().push(IrStmtV::LoadSymbol(reg, id)).push(IrStmtV::Load(global_scope(), id, t, reg, 0)),
                    )),
                    None => None,
                },
                None => None,
            }
        } else {
            match g.table[(sc, id)].reg {
                Some(reg) => Some((g_put_near(g, reg), seq![IrStmtV::Ref(env, id)])),
                None => None,
            }
        },
    }
}

/// An array element read.
pub open spec fn gen_index(g: GenV, env: Seq<u32>, ie: IndexExprV) -> Option<(GenV, Seq<IrStmtV>)> {
    let name = ie.name;
    match resolve(g.table, env, name) {
        None => None,
        Some(sc) => if !g.table.contains_key((env, name)) {
            None
        } else {
            match index_offset(g.table[(env, name)].array_range, ie.index) {
                None => None,
                Some(off) => if sc == global_scope() {
                    match g_eat(g) {
                        Some((g1, base)) => match g_eat(g_set_virtual(g1, global_scope(), name, base)) {
                            Some((g3, t)) => if off >= 0 {
                                Some((
                                    g3,
                                    Seq::empty().push(IrStmtV::LoadSymbol(base, name)).push(
                                        IrStmtV::Load(global_scope(), name, t, base, off as u32),
                                    ),
                                ))
                            } else {
                                None
                            },
                            None => None,
                        },
                        None => None,
                    }
                } else {
                    match g.table[(sc, name)].reg {
                        Some(base) => match g_eat(g) {
                            Some((g1, t)) => if off >= 0 {
                                Some((g1, seq![IrStmtV::Load(sc, name, t, base, off as u32)]))
                            } else {
                                None
                            },
                            None => None,
                        },
                        None => None,
                    }
                },
            }
        },
    }
}

pub open spec fn gen_unary(g: GenV, u: UnaryV) -> Option<(GenV, Seq<IrStmtV>)>
    decreases u, 2nat,
{
    match u {
        UnaryV::Int(y) => match g_eat(g) {
            Some((g1, t)) => Some((g1, seq![IrStmtV::Ldc(y, t)])),
            None => None,
        },
        UnaryV::Neg(y) => match gen_unary(g, *y) {
            Some((g1, s1)) => match g_near(g1) {
                Some((g2, t1)) => match g_eat(g2) {
                    Some((g3, t2)) => Some((g3, s1.push(IrStmtV::Neg(t1, t2)))),
                    None => None,
                },
                None => None,
            },
            None => None,
        },
        UnaryV::Primary(y) => gen_expr(g, *y),
        UnaryV::Identifier(env, id) => gen_ident(g, env, id),
        UnaryV::Call(c) => match gen_args(g, c.params, c.name) {
            Some((g1, s1, pairs)) => {
                let (tun, ok) = tunnel_is_match(g1.tunnel, c.name);
                if ok {
                    match g_eat(GenV { tunnel: tun, ..g1 }) {
                        Some((g2, t)) => Some((g2, s1.push(IrStmtV::Call(pairs, c.name, t)))),
                        None => None,
                    }
                } else {
                    None
                }
            },
            None => None,
        },
        UnaryV::Index(env, ie) => gen_index(g, env, ie),
    }
}

/// The arguments of a call of `f`: each computed in turn, and paired with the
/// argument register that receives it.
pub open spec fn gen_args(g: GenV, args: Seq<ExprV>, f: Str) -> Option<(GenV, Seq<IrStmtV>, Seq<(Str, Str)>)>
    decreases args, 1nat,
{
    if args.len() == 0 {
        Some((g, Seq::empty(), Seq::empty()))
    } else {
        match gen_args(g, args.drop_last(), f) {
            Some((g1, s1, p1)) => match gen_expr(g1, args.last()) {
                Some((g2, s2)) => match g_near(g2) {
                    Some((g3, t)) => if tunnel_counts(g3.tunnel, f).1 < u64::MAX {
                        let (tun, a) = tunnel_get_arg(g3.tunnel, f);
                        Some((GenV { tunnel: tun, ..g3 }, s1 + s2, p1.push((t, a))))
                    } else {
                        None
                    },
                    None => None,
                },
                None => None,
            },
            None => None,
        }
    }
}

pub open spec fn gen_opt(g: GenV, e: Option<ExprV>) -> Option<(GenV, Seq<IrStmtV>)> {
    match e {
        Some(x) => gen_expr(g, x),
        None => Some((g, Seq::empty())),
    }
}

/// A statement. An `if` lowers to its condition, a branch past the then-part
/// when the condition is 0 (to the else label where there is an else, to the
/// end label otherwise), the then-part, and, with an else, a jump to the end
/// label, the else label and the else-part; then the end label. A `while`
/// lowers to its condition and update labels, the condition, a branch to the
/// end label when it is 0, the body, a jump back to the condition label and
/// the end label; a `for` likewise, with its update after the body.
pub open spec fn gen_stmt(g: GenV, s: StmtV) -> Option<(GenV, Seq<IrStmtV>)>
    decreases s, 1nat,
{
    match s {
        StmtV::Ret(e) => match gen_expr(g, e) {
            Some((g1, s1)) => match g_near(g1) {
                Some((g2, t)) => Some((g2, s1.push(IrStmtV::Ret(t)))),
                None => None,
            },
            None => None,
        },
        StmtV::Expr(e) => gen_opt(g, e),
        StmtV::If(c, t, l) => match g_create(g_enter(g), LabelType::Other) {
            Some((g1, other_b)) => {
                let made: Option<(GenV, Str)> = match l {
                    Some(_) => g_create(g1, LabelType::Other),
                    None => Some((g1, other_b)),
                };
                match made {
                    Some((g2, skip_b)) => match gen_expr(g2, c) {
                        Some((g3, s1)) => match g_near(g3) {
                            Some((g4, reg)) => match gen_stmt(g4, *t) {
                                Some((g5, s2)) => {
                                    let tail: Option<(GenV, Seq<IrStmtV>)> = match l {
                                        Some(ls) => match gen_stmt(g5, *ls) {
                                            Some((g6, s3)) => Some((
                                                g6,
                                                seq![IrStmtV::Jmp(other_b), IrStmtV::Label(skip_b)] + s3,
                                            )),
                                            None => None,
                                        },
                                        None => Some((g5, Seq::empty())),
                                    };
                                    match tail {
                                        Some((g6, s3)) => match g_leave(g6) {
                                            Some(g7) => Some((
                                                g7,
                                                s1.push(IrStmtV::Beq(reg, skip_b)) + s2 + s3.push(IrStmtV::Label(other_b)),
                                            )),
                                            None => None,
                                        },
                                        None => None,
                                    }
                                },
                                None => None,
                            },
                            None => None,
                        },
                        None => None,
                    },
                    None => None,
                }
            },
            None => None,
        },
        StmtV::Block(b) => gen_block(g, b),
        StmtV::For(init, cond, upd, body) => match g_create(g_enter(g), LabelType::Other) {
            Some((g1, other_b)) => match g_create(g1, LabelType::Cond) {
                Some((g2, cond_b)) => match gen_opt(g2, init) {
                    Some((g3, s1)) => match gen_opt(g3, cond) {
                        Some((g4, s2)) => match g_near(g4) {
                            Some((g5, t)) => match gen_stmt(g5, *body) {
                                Some((g6, s3)) => match g_create(g6, LabelType::Update) {
                                    Some((g7, upd_b)) => match gen_opt(g7, upd) {
                                        Some((g8, s4)) => match g_leave(g8) {
                                            Some(g9) => Some((
                                                g9,
                                                s1.push(IrStmtV::Label(cond_b)) + s2.push(IrStmtV::Beq(t, other_b)) + s3.push(
                                                    IrStmtV::Label(upd_b),
                                                ) + s4.push(IrStmtV::Jmp(cond_b)).push(IrStmtV::Label(other_b)),
                                            )),
                                            None => None,
                                        },
                                        None => None,
                                    },
                                    None => None,
                                },
                                None => None,
                            },
                            None => None,
                        },
                        None => None,
                    },
                    None => None,
                },
                None => None,
            },
            None => None,
        },
        StmtV::While(c, body) => match g_create(g_enter(g), LabelType::Other) {
            Some((g1, other_b)) => match g_create(g1, LabelType::Cond) {
                Some((g2, cond_b)) => match g_create(g2, LabelType::Update) {
                    Some((g3, upd_b)) => match gen_expr(g3, c) {
                        Some((g4, s1)) => match g_near(g4) {
                            Some((g5, t)) => match gen_stmt(g5, *body) {
                                Some((g6, s2)) => match g_leave(g6) {
                                    Some(g7) => Some((
                                        g7,
                                        Seq::empty().push(IrStmtV::Label(cond_b)).push(IrStmtV::Label(upd_b)) + s1.push(
                                            IrStmtV::Beq(t, other_b),
                                        ) + s2.push(IrStmtV::Jmp(cond_b)).push(IrStmtV::Label(other_b)),
                                    )),
                                    None => None,
                                },
                                None => None,
                            },
                            None => None,
                        },
                        None => None,
                    },
                    None => None,
                },
                None => None,
            },
            None => None,
        },
        StmtV::Continue => match g_label(g, LabelType::Update) {
            Some(l) => Some((g, seq![IrStmtV::Jmp(l)])),
            None => None,
        },
        StmtV::Break => match g_label(g, LabelType::Other) {
            Some(l) => Some((g, seq![IrStmtV::Jmp(l)])),
            None => None,
        },
    }
}

/// A local declaration: an array takes a fresh register for its base and
/// stack space `4 * dims`; an initializer is computed and assigned.
pub open spec fn gen_decl(g: GenV, d: DeclV) -> Option<(GenV, Seq<IrStmtV>)> {
    let first: Option<(GenV, Seq<IrStmtV>)> = if d.indexes.len() > 0 {
        match checked_mul_all(4, d.indexes) {
            Some(size) => match g_eat(g) {
                Some((g1, t)) => if size >= 0 {
                    Some((
                        g_set_virtual(g1, d.scope, d.name, t),
                        seq![IrStmtV::Alloc(d.scope, d.name, t, size as u32)],
                    ))
                } else {
                    None
                },
                None => None,
            },
            None => None,
        }
    } else {
        Some((g, Seq::empty()))
    };
    match first {
        Some((ga, sa)) => match d.expr {
            Some(x) => match gen_expr(ga, x) {
                Some((gb, sb)) => match g_near(gb) {
                    Some((gc, t2)) => match g_alloc_virtual(gc, d.scope, d.name) {
                        Some(gd) => Some((gd, sa + sb.push(IrStmtV::Assign(d.scope, d.name, t2)))),
                        None => None,
                    },
                    None => None,
                },
                None => None,
            },
            None => Some((ga, sa)),
        },
        None => None,
    }
}

pub open spec fn gen_block(g: GenV, items: Seq<BlockItemV>) -> Option<(GenV, Seq<IrStmtV>)>
    decreases items, 0nat,
{
    if items.len() == 0 {
        Some((g, Seq::empty()))
    } else {
        match gen_block(g, items.drop_last()) {
            Some((g1, s1)) => match items.last() {
                BlockItemV::Stmt(st) => match gen_stmt(g1, st) {
                    Some((g2, s2)) => Some((g2, s1 + s2)),
                    None => None,
                },
                BlockItemV::Decl(d) => match gen_decl(g1, d) {
                    Some((g2, s2)) => Some((g2, s1 + s2)),
                    None => None,
                },
            },
            None => None,
        }
    }
}

/// The parameters of function `f`: each declared parameter without a
/// physical register gets the next argument register of `f`.
pub open spec fn gen_params(g: GenV, f: Str, ps: Seq<ParamV>) -> Option<(GenV, Seq<IrStmtV>)>
    decreases ps.len(),
{
    if ps.len() == 0 {
        Some((g, Seq::empty()))
    } else {
        match gen_params(g, f, ps.drop_last()) {
            Some((g1, s1)) => {
                let p = ps.last();
                let k = (p.scope, p.name);
                let g2: Option<GenV> = if g1.table.contains_key(k) && !g1.table[k].alloc_phy_reg {
                    if tunnel_counts(g1.tunnel, f).0 < u64::MAX {
                        let (tun, t) = tunnel_set_arg(g1.tunnel, f);
                        Some(GenV { tunnel: tun, table: g1.table.insert(k, g1.table[k].with_reg(t, true, true)), ..g1 })
                    } else {
                        None
                    }
                } else {
                    Some(g1)
                };
                match g2 {
                    Some(g2) => Some((g2, s1.push(IrStmtV::Param(p.scope, p.name, f)))),
                    None => None,
                }
            },
            None => None,
        }
    }
}

pub open spec fn gen_func(g: GenV, f: FuncV) -> Option<(GenV, IrFuncV)> {
    match gen_params(g, f.name, f.params) {
        Some((g1, ps)) => match gen_block(g1, f.stmt) {
            Some((g2, ss)) => Some((g2, IrFuncV { name: f.name, params: ps, stmts: ss })),
            None => None,
        },
        None => None,
    }
}

pub open spec fn gen_funcs(g: GenV, fs: Seq<FuncV>) -> Option<(GenV, Seq<IrFuncV>)>
    decreases fs.len(),
{
    if fs.len() == 0 {
        Some((g, Seq::empty()))
    } else {
        match gen_funcs(g, fs.drop_last()) {
            Some((g1, r1)) => match gen_func(g1, fs.last()) {
                Some((g2, f)) => Some((g2, r1.push(f))),
                None => None,
            },
            None => None,
        }
    }
}

/// A global declaration: an array is declared by its dimensions, a scalar by
/// its initial value, which must be an integer literal.
pub open spec fn gen_global(d: DeclV) -> Option<IrStmtV> {
    if d.indexes.len() > 0 {
        Some(IrStmtV::DeclGlobalArray(d.name, d.indexes))
    } else {
        match d.expr {
            Some(ExprV::Unary(UnaryV::Int(i))) => Some(IrStmtV::DeclGlobal(d.name, i)),
            _ => None,
        }
    }
}

pub open spec fn gen_globals(ds: Seq<DeclV>) -> Option<Seq<IrStmtV>>
    decreases ds.len(),
{
    if ds.len() == 0 {
        Some(Seq::empty())
    } else {
        match gen_globals(ds.drop_last()) {
            Some(r) => match gen_global(ds.last()) {
                Some(st) => Some(r.push(st)),
                None => None,
            },
            None => None,
        }
    }
}

pub open spec fn gen_init(table: SymMap) -> GenV {
    GenV {
        tunnel: TunnelState::empty(),
        table,
        bl: BranchState { counter: 0, frames: Seq::empty() },
        r: VRegState { counter: 0, near: Seq::empty() },
    }
}

/// The lowering of a program: its functions in order, then its globals;
/// together with the symbol table as the lowering leaves it. `None` where
/// the lowering fails (an undeclared variable, a missing label, a
/// register read before one was computed, a call with the wrong number of
/// arguments, an arithmetic overflow, a global that is not initialized by an
/// integer literal).
pub open spec fn spec_ast2ir(p: ProgV, table: SymMap) -> Option<(IrProgV, SymMap)> {
    match gen_funcs(gen_init(table), p.funcs) {
        Some((g, fs)) => match gen_globals(p.global_vars) {
            Some(gs) => Some((IrProgV { funcs: fs, global_vars: gs }, g.table)),
            None => None,
        },
        None => None,
    }
}

// ---------------------------------------------------------------------------
// The lowering.
// ---------------------------------------------------------------------------

broadcast use crate::seqs::group_concat;

struct Gen {
    tunnel: ArgTunnel,
    table: SymTab,
    bl: BranchLabel,
    r: VirtualRegeister,
}

impl View for Gen {
    type V = GenV;

    closed spec fn view(&self) -> GenV {
        GenV { tunnel: self.tunnel@, table: self.table@, bl: self.bl@, r: self.r@ }
    }
}

/// What a lowering step guarantees: on success the state and the emitted
/// statements are those of the specification, on failure it reports `None`.
pub open spec fn step_post(
    spec_r: Option<(GenV, Seq<IrStmtV>)>,
    ok: bool,
    g1: GenV,
    st0: Seq<IrStmt>,
    st1: Seq<IrStmt>,
) -> bool {
    match spec_r {
        Some((g, s)) => ok && g1 == g && stmts_view(st1) == stmts_view(st0) + s,
        None => !ok,
    }
}

proof fn lemma_stmts_push(a: Seq<IrStmt>, x: IrStmt)
    ensures
        stmts_view(a.push(x)) == stmts_view(a).push(x@),
{
    assert(stmts_view(a.push(x)) =~= stmts_view(a).push(x@));
}

fn emit(stmts: &mut Vec<IrStmt>, x: IrStmt)
    ensures
        stmts_view(final(stmts)@) == stmts_view(old(stmts)@).push(x@),
{
    proof {
        lemma_stmts_push(old(stmts)@, x);
    }
    stmts.push(x);
}

fn near(g: &mut Gen) -> (r: Option<String>)
    ensures
        match g_near(old(g)@) {
            Some((g1, t)) => r is Some && r->0@ == t && final(g)@ == g1,
            None => r is None,
        },
{
    if g.r.has_near() {
        Some(g.r.near())
    } else {
        None
    }
}

fn eat(g: &mut Gen) -> (r: Option<String>)
    ensures
        match g_eat(old(g)@) {
            Some((g1, t)) => r is Some && r->0@ == t && final(g)@ == g1,
            None => r is None,
        },
{
    if g.r.can_eat() {
        Some(g.r.eat())
    } else {
        None
    }
}

fn create(g: &mut Gen, lt: LabelType) -> (r: Option<String>)
    ensures
        match g_create(old(g)@, lt) {
            Some((g1, t)) => r is Some && r->0@ == t && final(g)@ == g1,
            None => r is None,
        },
{
    if g.bl.can_create() {
        Some(g.bl.create(lt))
    } else {
        None
    }
}

fn label(g: &Gen, lt: LabelType) -> (r: Option<String>)
    ensures
        match g_label(g@, lt) {
            Some(l) => r is Some && r->0@ == l,
            None => r is None,
        },
{
    if g.bl.has_label(lt) {
        Some(g.bl.label(lt).name.clone())
    } else {
        None
    }
}

fn enter(g: &mut Gen)
    ensures
        final(g)@ == g_enter(old(g)@),
{
    g.bl.enter_branch();
}

fn leave(g: &mut Gen) -> (r: Option<()>)
    ensures
        match g_leave(old(g)@) {
            Some(g1) => r is Some && final(g)@ == g1,
            None => r is None,
        },
{
    if g.bl.has_frame() {
        g.bl.leave_branch();
        Some(())
    } else {
        None
    }
}

fn set_virtual(g: &mut Gen, scope: &Vec<u32>, name: &String, reg: String)
    ensures
        final(g)@ == g_set_virtual(old(g)@, scope@, name@, reg@),
{
    let needs = match g.table.entry(scope, name) {
        Some(s) => !s.alloc_virtual_reg,
        None => false,
    };
    if needs {
        g.table.set_reg(scope, name, reg, true, false);
    }
}

fn alloc_virtual(g: &mut Gen, scope: &Vec<u32>, name: &String) -> (r: Option<()>)
    ensures
        match g_alloc_virtual(old(g)@, scope@, name@) {
            Some(g1) => r is Some && final(g)@ == g1,
            None => r is None,
        },
{
    let needs = match g.table.entry(scope, name) {
        Some(s) => !s.alloc_virtual_reg,
        None => false,
    };
    if needs {
        let t = eat(g)?;
        set_virtual(g, scope, name, t);
    }
    Some(())
}

/// `init * s[from] * s[from + 1] * ...`, or `None` on overflow.
pub(crate) fn product(init: i32, s: &VecDeque<i32>, from: usize) -> (r: Option<i32>)
    requires
        from <= s@.len(),
    ensures
        match checked_mul_all(init as int, s@.subrange(from as int, s@.len() as int)) {
            Some(p) => r == Some(p as i32),
            None => r is None,
        },
{
    let mut acc = init;
    let mut j = from;
    assert(s@.subrange(from as int, from as int) =~= Seq::<i32>::empty());
    while j < s.len()
        invariant
            from <= j <= s@.len(),
            checked_mul_all(init as int, s@.subrange(from as int, j as int)) == Some(acc as int),
        decreases s@.len() - j,
    {
        let ghost prev = s@.subrange(from as int, j as int);
        assert(s@.subrange(from as int, j + 1).drop_last() =~= prev);
        match acc.checked_mul(s[j]) {
            Some(a) => {
                acc = a;
            },
            None => {
                proof {
                    lemma_checked_mul_none(init as int, s@.subrange(from as int, j + 1), s@.subrange(from as int, s@.len() as int));
                }
                return None;
            },
        }
        j = j + 1;
    }
    Some(acc)
}

/// Once a prefix overflows, so does the whole product.
proof fn lemma_checked_mul_none(init: int, pre: Seq<i32>, all: Seq<i32>)
    requires
        pre.len() <= all.len(),
        pre =~= all.subrange(0, pre.len() as int),
        checked_mul_all(init, pre) is None,
    ensures
        checked_mul_all(init, all) is None,
    decreases all.len(),
{
    if all.len() > pre.len() {
        lemma_checked_mul_none(init, pre, all.drop_last());
    } else {
        assert(pre =~= all);
    }
}

/// The byte offset of an array element; see `index_offset`.
fn offset(range: &VecDeque<i32>, idx: &VecDeque<i32>) -> (r: Option<i32>)
    ensures
        match index_offset(range@, idx@) {
            Some(o) => r == Some(o as i32),
            None => r is None,
        },
{
    let mut acc: i32 = 0;
    let mut k: usize = 0;
    assert(range@.subrange(0, range@.len() as int) =~= range@);
    assert(idx@.subrange(0, idx@.len() as int) =~= idx@);
    while k < idx.len()
        invariant
            k <= idx@.len(),
            offset_steps(range@, idx@, 0) == offset_steps(
                range@.subrange(if k <= range@.len() { k as int } else { range@.len() as int }, range@.len() as int),
                idx@.subrange(k as int, idx@.len() as int),
                acc as int,
            ),
            k <= range@.len(),
        decreases idx@.len() - k,
    {
        let ghost rr = range@.subrange(k as int, range@.len() as int);
        let ghost ii = idx@.subrange(k as int, idx@.len() as int);
        if k >= range.len() {
            return None;
        }
        assert(rr.drop_first() =~= range@.subrange(k + 1, range@.len() as int));
        assert(ii.drop_first() =~= idx@.subrange(k + 1, idx@.len() as int));
        assert(ii[0] == idx@[k as int]);
        let p = product(1, range, k + 1)?;
        let step = idx[k].checked_mul(p)?;
        acc = acc.checked_add(step)?;
        k = k + 1;
    }
    assert(idx@.subrange(k as int, idx@.len() as int) =~= Seq::<i32>::empty());
    acc.checked_mul(4)
}

fn expr(g: &mut Gen, stmts: &mut Vec<IrStmt>, e: &Expr) -> (r: Option<()>)
    ensures
        step_post(gen_expr(old(g)@, e@), r is Some, final(g)@, old(stmts)@, final(stmts)@),
    decreases e, 3nat,
{
    bin_op(g, stmts, e)
}

proof fn lemma_unfold_operands(g: GenV, e: ExprV)
    requires
        is_binary(e),
    ensures
        gen_operands(g, e) == match gen_expr(g, bin_operands(e).0) {
            Some((g1, s1)) => match gen_expr(g1, bin_operands(e).1) {
                Some((g2, s2)) => Some((g2, s1 + s2)),
                None => None,
            },
            None => None,
        },
{
}

fn bin_op(g: &mut Gen, stmts: &mut Vec<IrStmt>, m: &Expr) -> (r: Option<()>)
    ensures
        step_post(gen_expr(old(g)@, m@), r is Some, final(g)@, old(stmts)@, final(stmts)@),
    decreases m, 2nat,
{
    match m {
        Expr::Unary(u) => unary(g, stmts, u),
        Expr::Assign(env, id, e) => {
            bin_op(g, stmts, e)?;
            let t2 = near(g)?;
            alloc_virtual(g, env, id)?;
            emit(stmts, IrStmt::Assign((**env).clone(), (**id).clone(), t2));
            Some(())
        },
        Expr::Null => Some(()),
        Expr::Cond(..) => cond(g, stmts, m),
        _ => binary(g, stmts, m),
    }
}

/// A binary operation: both operands, then the operation on their registers.
fn binary(g: &mut Gen, stmts: &mut Vec<IrStmt>, m: &Expr) -> (r: Option<()>)
    requires
        is_binary(m@),
    ensures
        step_post(gen_expr(old(g)@, m@), r is Some, final(g)@, old(stmts)@, final(stmts)@),
    decreases m, 1nat,
{
    proof {
        lemma_unfold_operands(g@, m@);
    }
    match m {
        Expr::Add(e, e1) | Expr::Sub(e, e1) | Expr::Mul(e, e1) | Expr::Div(e, e1) | Expr::Mod(e, e1)
        | Expr::Lt(e, e1) | Expr::Gt(e, e1) | Expr::Let(e, e1) | Expr::Get(e, e1) | Expr::And(e, e1)
        | Expr::Or(e, e1) | Expr::NotEquals(e, e1) | Expr::Equals(e, e1) => {
            bin_op(g, stmts, e)?;
            bin_op(g, stmts, e1)?;
        },
        _ => {},
    }
    emit_binary(g, stmts, m)
}

/// The operation of a binary expression on the registers of its operands.
fn emit_binary(g: &mut Gen, stmts: &mut Vec<IrStmt>, m: &Expr) -> (r: Option<()>)
    requires
        is_binary(m@),
    ensures
        match emit_bin(old(g)@, m@) {
            Some((g1, st)) => r is Some && final(g)@ == g1 && stmts_view(final(stmts)@) == stmts_view(old(stmts)@).push(st),
            None => r is None,
        },
{
    let t1 = near(g)?;
    let t2 = near(g)?;
    let t = eat(g)?;
    match m {
        Expr::Mul(..) => emit(stmts, IrStmt::Mul(t1, t2, t)),
        Expr::Div(..) => emit(stmts, IrStmt::Div(t1, t2, t)),
        Expr::Mod(..) => emit(stmts, IrStmt::Mod(t1, t2, t)),
        Expr::Add(..) => emit(stmts, IrStmt::Add(t1, t2, t)),
        Expr::Sub(..) => emit(stmts, IrStmt::Sub(t1, t2, t)),
        Expr::Lt(..) => emit(stmts, IrStmt::Lt(t1, t2, t)),
        Expr::Gt(..) => emit(stmts, IrStmt::Gt(t1, t2, t)),
        Expr::And(..) => emit(stmts, IrStmt::And(t1, t2, t)),
        Expr::Or(..) => emit(stmts, IrStmt::Or(t1, t2, t)),
        Expr::Let(..) => {
            let t3 = eat(g)?;
            let t4 = eat(g)?;
            let t5 = eat(g)?;
            emit(stmts, IrStmt::Let(t1, t2, t, t3, t4, t5));
        },
        Expr::Get(..) => {
            let t3 = eat(g)?;
            let t4 = eat(g)?;
            let t5 = eat(g)?;
            emit(stmts, IrStmt::Get(t1, t2, t, t3, t4, t5));
        },
        Expr::NotEquals(..) => {
            let t3 = eat(g)?;
            emit(stmts, IrStmt::NotEqual(t1, t2, t, t3));
        },
        Expr::Equals(..) => {
            let t3 = eat(g)?;
            emit(stmts, IrStmt::Equal(t1, t2, t, t3));
        },
        _ => {},
    }
    Some(())
}

/// A conditional expression, lowered like an `if`-`else`.
fn cond(g: &mut Gen, stmts: &mut Vec<IrStmt>, m: &Expr) -> (r: Option<()>)
    requires
        m@ is Cond,
    ensures
        step_post(gen_expr(old(g)@, m@), r is Some, final(g)@, old(stmts)@, final(stmts)@),
    decreases m, 1nat,
{
    let ghost g0 = g@;
    assert(gen_cond(g0, m@) == gen_expr(g0, m@));
    match m {
        Expr::Cond(condition, then, other) => {
            enter(g);
            let else_branch = create(g, LabelType::Other)?;
            let other_branch = create(g, LabelType::Other)?;
            expr(g, stmts, condition)?;
            let reg = near(g)?;
            emit(stmts, IrStmt::Beq(reg, else_branch.clone()));
            expr(g, stmts, then)?;
            emit(stmts, IrStmt::Jmp(other_branch.clone()));
            emit(stmts, IrStmt::Label(else_branch));
            expr(g, stmts, other)?;
            emit(stmts, IrStmt::Label(other_branch));
            leave(g)?;
            Some(())
        },
        _ => None,
    }
}

fn is_global_scope(s: &Vec<u32>) -> (r: bool)
    ensures
        r == (s@ == global_scope()),
{
    let r = s.len() == 1 && s[0] == 1;
    if r {
        assert(s@ =~= global_scope());
    }
    r
}

fn global_scope_vec() -> (r: Vec<u32>)
    ensures
        r@ == global_scope(),
{
    let r = vec![1u32];
    assert(r@ =~= global_scope());
    r
}

fn ident(g: &mut Gen, stmts: &mut Vec<IrStmt>, env: &Vec<u32>, id: &String) -> (r: Option<()>)
    ensures
        step_post(gen_ident(old(g)@, env@, id@), r is Some, final(g)@, old(stmts)@, final(stmts)@),
{
    let ghost st0 = stmts@;
    let var = g.table.extis(env, id);
    proof {
        lemma_resolve_contains(g@.table, env@, id@);
    }
    if !var.0 {
        return None;
    }
    if is_global_scope(&var.1) {
        let reg = eat(g)?;
        emit(stmts, IrStmt::LoadSymbol(reg.clone(), id.clone()));
        let gs = global_scope_vec();
        set_virtual(g, &gs, id, reg.clone());
        let t = eat(g)?;
        let ghost tv = t@;
        emit(stmts, IrStmt::Load(global_scope_vec(), id.clone(), t, reg.clone(), 0));
        g.r.put_near(reg);
        assert(stmts_view(stmts@) =~= stmts_view(st0) + Seq::<IrStmtV>::empty().push(
            IrStmtV::LoadSymbol(reg@, id@),
        ).push(IrStmtV::Load(global_scope(), id@, tv, reg@, 0)));
    } else {
        let reg = match &g.table.get(&var.1, id).reg {
            Some(x) => x.clone(),
            None => {
                return None;
            },
        };
        g.r.put_near(reg);
        emit(stmts, IrStmt::Ref(env.clone(), id.clone()));
        assert(stmts_view(stmts@) =~= stmts_view(st0) + seq![IrStmtV::Ref(env@, id@)]);
    }
    Some(())
}

fn index(g: &mut Gen, stmts: &mut Vec<IrStmt>, env: &Vec<u32>, i: &crate::ast::IndexExpr) -> (r: Option<()>)
    ensures
        step_post(
            gen_index(old(g)@, env@, IndexExprV { name: i.name@, index: i.index@ }),
            r is Some,
            final(g)@,
            old(stmts)@,
            final(stmts)@,
        ),
{
    let ghost st0 = stmts@;
    let name = &i.name;
    let var = g.table.extis(env, name);
    proof {
        lemma_resolve_contains(g@.table, env@, name@);
    }
    if !var.0 {
        return None;
    }
    let off = match g.table.entry(env, name) {
        Some(sym) => offset(&sym.array_range, &i.index)?,
        None => {
            return None;
        },
    };
    if is_global_scope(&var.1) {
        let base_reg = eat(g)?;
        emit(stmts, IrStmt::LoadSymbol(base_reg.clone(), name.clone()));
        let gs = global_scope_vec();
        set_virtual(g, &gs, name, base_reg.clone());
        let t = eat(g)?;
        if off < 0 {
            return None;
        }
        let ghost tv = t@;
        let ghost bv = base_reg@;
        emit(stmts, IrStmt::Load(global_scope_vec(), name.clone(), t, base_reg, off as u32));
        assert(stmts_view(stmts@) =~= stmts_view(st0) + Seq::<IrStmtV>::empty().push(
            IrStmtV::LoadSymbol(bv, name@),
        ).push(IrStmtV::Load(global_scope(), name@, tv, bv, off as u32)));
    } else {
        let base_reg = match &g.table.get(&var.1, name).reg {
            Some(x) => x.clone(),
            None => {
                return None;
            },
        };
        let t = eat(g)?;
        if off < 0 {
            return None;
        }
        let ghost tv = t@;
        let ghost bv = base_reg@;
        let ghost sc = var.1@;
        emit(stmts, IrStmt::Load(var.1, name.clone(), t, base_reg, off as u32));
        assert(stmts_view(stmts@) =~= stmts_view(st0) + seq![IrStmtV::Load(sc, name@, tv, bv, off as u32)]);
    }
    Some(())
}

/// Once the arguments up to `k` fail to lower, all of them do.
proof fn lemma_args_prefix_none(g: GenV, params: Seq<Expr>, k: int, f: Str)
    requires
        0 <= k <= params.len(),
        gen_args(g, exprs_view(params.subrange(0, k)), f) is None,
    ensures
        gen_args(g, exprs_view(params), f) is None,
    decreases params.len() - k,
{
    if k < params.len() {
        let next = params.subrange(0, k + 1);
        assert(next.drop_last() =~= params.subrange(0, k));
        lemma_exprs_view_last(next);
        lemma_args_prefix_none(g, params, k + 1, f);
    } else {
        assert(params.subrange(0, k) =~= params);
    }
}

fn unary(g: &mut Gen, stmts: &mut Vec<IrStmt>, u: &Unary) -> (r: Option<()>)
    ensures
        step_post(gen_unary(old(g)@, u@), r is Some, final(g)@, old(stmts)@, final(stmts)@),
    decreases u, 2nat,
{
    match u {
        Unary::Int(y) => {
            let t = eat(g)?;
            emit(stmts, IrStmt::Ldc(*y, t));
        },
        Unary::Neg(y) => {
            unary(g, stmts, y)?;
            let t1 = near(g)?;
            let t2 = eat(g)?;
            emit(stmts, IrStmt::Neg(t1, t2));
        },
        Unary::Primary(y) => {
            expr(g, stmts, y)?;
        },
        Unary::Identifier(env, id) => {
            ident(g, stmts, env, id)?;
        },
        Unary::Call(call) => {
            let ghost g0 = g@;
            let ghost st0 = stmts@;
            let mut params: Vec<(String, String)> = Vec::new();
            let label = &call.name;
            let mut i: usize = 0;
            #[verifier::loop_isolation(false)]
            while i < call.params.len()
                invariant
                    i <= call.params@.len(),
                    match gen_args(g0, exprs_view(call.params@.subrange(0, i as int)), label@) {
                        Some((g1, s1, p1)) => g@ == g1 && stmts_view(stmts@) == stmts_view(st0) + s1 && pairs_view(params@) == p1,
                        None => false,
                    },
                decreases call.params@.len() - i,
            {
                let ghost sub = call.params@.subrange(0, i + 1);
                assert(sub.drop_last() =~= call.params@.subrange(0, i as int));
                proof {
                    lemma_exprs_view_last(sub);
                }
                assert(sub.last() == call.params@[i as int]);
                proof {
                    vstd::std_specs::vec::axiom_vec_index_decreases(call.params, i as int);
                    assert(decreases_to!(*u => call.params[i as int]));
                }
                if expr(g, stmts, &call.params[i]).is_none() {
                    proof {
                        lemma_args_prefix_none(g0, call.params@, i + 1, label@);
                    }
                    return None;
                }
                let t = match near(g) {
                    Some(t) => t,
                    None => {
                        proof {
                            lemma_args_prefix_none(g0, call.params@, i + 1, label@);
                        }
                        return None;
                    },
                };
                if !g.tunnel.can_get_arg(label) {
                    proof {
                        lemma_args_prefix_none(g0, call.params@, i + 1, label@);
                    }
                    return None;
                }
                let a = g.tunnel.get_arg(label);
                params.push((t, a));
                proof {
                    assert(pairs_view(params@) =~= pairs_view(params@.drop_last()).push((params@.last().0@, params@.last().1@)));
                }
                i = i + 1;
            }
            assert(call.params@.subrange(0, i as int) =~= call.params@);
            if !g.tunnel.is_match(label) {
                return None;
            }
            let t = eat(g)?;
            emit(stmts, IrStmt::Call(params, label.clone(), t));
        },
        Unary::Index(env, ie) => {
            index(g, stmts, env, ie)?;
        },
    }
    Some(())
}

fn opt_expr(g: &mut Gen, stmts: &mut Vec<IrStmt>, e: &Option<Expr>) -> (r: Option<()>)
    ensures
        step_post(gen_opt(old(g)@, crate::ast::opt_expr_view(*e)), r is Some, final(g)@, old(stmts)@, final(stmts)@),
{
    if let Some(ex) = e {
        expr(g, stmts, ex)?;
    }
    Some(())
}

fn stmt(g: &mut Gen, stmts: &mut Vec<IrStmt>, s: &Stmt) -> (r: Option<()>)
    ensures
        step_post(gen_stmt(old(g)@, s@), r is Some, final(g)@, old(stmts)@, final(stmts)@),
    decreases s, 1nat,
{
    let ghost g0 = g@;
    let ghost st0 = stmts@;
    match s {
        Stmt::Ret(e) => {
            expr(g, stmts, e)?;
            let t = near(g)?;
            emit(stmts, IrStmt::Ret(t));
        },
        Stmt::Expr(e) => {
            opt_expr(g, stmts, e)?;
        },
        Stmt::If(..) => {
            if_stmt(g, stmts, s)?;
        },
        Stmt::Block(bts) => {
            block(g, stmts, bts)?;
        },
        Stmt::For(..) => {
            for_stmt(g, stmts, s)?;
        },
        Stmt::While(..) => {
            while_stmt(g, stmts, s)?;
        },
        Stmt::Continue => {
            let l = label(g, LabelType::Update)?;
            emit(stmts, IrStmt::Jmp(l));
        },
        Stmt::Break => {
            let l = label(g, LabelType::Other)?;
            emit(stmts, IrStmt::Jmp(l));
        },
    }
    Some(())
}

#[verifier::spinoff_prover]
#[verifier::rlimit(80)]
fn if_stmt(g: &mut Gen, stmts: &mut Vec<IrStmt>, s: &Stmt) -> (r: Option<()>)
    requires
        s@ is If,
    ensures
        step_post(gen_stmt(old(g)@, s@), r is Some, final(g)@, old(stmts)@, final(stmts)@),
    decreases s, 0nat,
{
    match s {
        Stmt::If(e, t, l) => {
            let ghost v0 = stmts_view(stmts@);
            enter(g);
            let other_branch = create(g, LabelType::Other)?;
            // where control goes when the condition is 0
            let skip = match l {
                Some(_) => create(g, LabelType::Other)?,
                None => other_branch.clone(),
            };
            let ghost g2 = g@;
            expr(g, stmts, e)?;
            let ghost s1 = gen_expr(g2, e@).unwrap().1;
            let reg = near(g)?;
            let ghost beq = IrStmtV::Beq(reg@, skip@);
            emit(stmts, IrStmt::Beq(reg, skip.clone()));
            let ghost g4 = g@;
            stmt(g, stmts, t)?;
            let ghost s2 = gen_stmt(g4, (**t)@).unwrap().1;
            let ghost mut s3: Seq<IrStmtV> = Seq::empty();
            if let Some(s_else) = l {
                let ghost jl = seq![IrStmtV::Jmp(other_branch@), IrStmtV::Label(skip@)];
                emit(stmts, IrStmt::Jmp(other_branch.clone()));
                emit(stmts, IrStmt::Label(skip));
                let ghost g5 = g@;
                stmt(g, stmts, s_else)?;
                proof {
                    s3 = jl + gen_stmt(g5, (**s_else)@).unwrap().1;
                }
            }
            let ghost lab = IrStmtV::Label(other_branch@);
            emit(stmts, IrStmt::Label(other_branch));
            assert(stmts_view(stmts@) =~= v0 + (s1.push(beq) + s2 + s3.push(lab)));
            leave(g)?;
            Some(())
        },
        _ => None,
    }
}

fn for_stmt(g: &mut Gen, stmts: &mut Vec<IrStmt>, s: &Stmt) -> (r: Option<()>)
    requires
        s@ is For,
    ensures
        step_post(gen_stmt(old(g)@, s@), r is Some, final(g)@, old(stmts)@, final(stmts)@),
    decreases s, 0nat,
{
    match s {
        Stmt::For(init, cond, update, body) => {
            enter(g);
            let other_branch = create(g, LabelType::Other)?;
            let cond_branch = create(g, LabelType::Cond)?;
            opt_expr(g, stmts, init)?;
            emit(stmts, IrStmt::Label(cond_branch.clone()));
            opt_expr(g, stmts, cond)?;
            let t = near(g)?;
            emit(stmts, IrStmt::Beq(t, other_branch.clone()));
            stmt(g, stmts, body)?;
            let update_branch = create(g, LabelType::Update)?;
            emit(stmts, IrStmt::Label(update_branch));
            opt_expr(g, stmts, update)?;
            emit(stmts, IrStmt::Jmp(cond_branch));
            emit(stmts, IrStmt::Label(other_branch));
            leave(g)?;
            Some(())
        },
        _ => None,
    }
}

fn while_stmt(g: &mut Gen, stmts: &mut Vec<IrStmt>, s: &Stmt) -> (r: Option<()>)
    requires
        s@ is While,
    ensures
        step_post(gen_stmt(old(g)@, s@), r is Some, final(g)@, old(stmts)@, final(stmts)@),
    decreases s, 0nat,
{
    match s {
        Stmt::While(cond, body) => {
            enter(g);
            let other_branch = create(g, LabelType::Other)?;
            let cond_branch = create(g, LabelType::Cond)?;
            let update_branch = create(g, LabelType::Update)?;
            emit(stmts, IrStmt::Label(cond_branch.clone()));
            emit(stmts, IrStmt::Label(update_branch));
            expr(g, stmts, cond)?;
            let t = near(g)?;
            emit(stmts, IrStmt::Beq(t, other_branch.clone()));
            stmt(g, stmts, body)?;
            emit(stmts, IrStmt::Jmp(cond_branch));
            emit(stmts, IrStmt::Label(other_branch));
            leave(g)?;
            Some(())
        },
        _ => None,
    }
}

/// Lowers one local declaration.
fn decl(g: &mut Gen, stmts: &mut Vec<IrStmt>, d: &Decl) -> (r: Option<()>)
    ensures
        step_post(gen_decl(old(g)@, d@), r is Some, final(g)@, old(stmts)@, final(stmts)@),
{
    let ghost st0 = stmts@;
    let name = &d.name;
    let scope = &d.scope;
    if d.indexes.len() > 0 {
        // temp array decl
        assert(d.indexes@.subrange(0, d.indexes@.len() as int) =~= d.indexes@);
        let size = product(4, &d.indexes, 0)?;
        let t = eat(g)?;
        set_virtual(g, scope, name, t.clone());
        if size < 0 {
            return None;
        }
        emit(stmts, IrStmt::Alloc(scope.clone(), name.clone(), t, size as u32));
    }
    let ghost st1 = stmts@;
    if let Some(ex) = &d.expr {
        expr(g, stmts, ex)?;
        let t2 = near(g)?;
        alloc_virtual(g, scope, name)?;
        emit(stmts, IrStmt::Assign(scope.clone(), name.clone(), t2));
    }
    Some(())
}

fn block(g: &mut Gen, stmts: &mut Vec<IrStmt>, bts: &Vec<BlockItem>) -> (r: Option<()>)
    ensures
        step_post(gen_block(old(g)@, crate::ast::block_items_view(bts@)), r is Some, final(g)@, old(stmts)@, final(stmts)@),
    decreases bts, 0nat,
{
    let ghost g0 = g@;
    let ghost st0 = stmts@;
    let mut i: usize = 0;
    assert(bts@.subrange(0, 0) =~= Seq::<BlockItem>::empty());
    #[verifier::loop_isolation(false)]
    while i < bts.len()
        invariant
            i <= bts@.len(),
            match gen_block(g0, crate::ast::block_items_view(bts@.subrange(0, i as int))) {
                Some((g1, s1)) => g@ == g1 && stmts_view(stmts@) == stmts_view(st0) + s1,
                None => false,
            },
        decreases bts@.len() - i,
    {
        let ghost sub = bts@.subrange(0, i + 1);
        assert(sub.drop_last() =~= bts@.subrange(0, i as int));
        proof {
            crate::ast::lemma_block_items_view_last(sub);
            vstd::std_specs::vec::axiom_vec_index_decreases(*bts, i as int);
        }
        let ok = match &bts[i] {
            BlockItem::Stmt(s) => stmt(g, stmts, s),
            BlockItem::Decl(d) => decl(g, stmts, d),
        };
        if ok.is_none() {
            proof {
                lemma_block_prefix_none(g0, bts@, i + 1);
            }
            return None;
        }
        i = i + 1;
    }
    assert(bts@.subrange(0, i as int) =~= bts@);
    Some(())
}

/// Once the items up to `k` fail to lower, the whole block does.
proof fn lemma_block_prefix_none(g: GenV, items: Seq<BlockItem>, k: int)
    requires
        0 <= k <= items.len(),
        gen_block(g, crate::ast::block_items_view(items.subrange(0, k))) is None,
    ensures
        gen_block(g, crate::ast::block_items_view(items)) is None,
    decreases items.len() - k,
{
    if k < items.len() {
        let next = items.subrange(0, k + 1);
        assert(next.drop_last() =~= items.subrange(0, k));
        crate::ast::lemma_block_items_view_last(next);
        lemma_block_prefix_none(g, items, k + 1);
    } else {
        assert(items.subrange(0, k) =~= items);
    }
}

/// Once the parameters up to `k` fail, all of them do.
proof fn lemma_params_prefix_none(g: GenV, f: Str, ps: Seq<ParamV>, k: int)
    requires
        0 <= k <= ps.len(),
        gen_params(g, f, ps.subrange(0, k)) is None,
    ensures
        gen_params(g, f, ps) is None,
    decreases ps.len() - k,
{
    if k < ps.len() {
        assert(ps.subrange(0, k + 1).drop_last() =~= ps.subrange(0, k));
        lemma_params_prefix_none(g, f, ps, k + 1);
    } else {
        assert(ps.subrange(0, k) =~= ps);
    }
}

/// The parameters of a function: each takes the next argument register of
/// the function unless it already has a physical register.
fn arg(g: &mut Gen, func_name: &String, params: &mut Vec<IrStmt>, ps: &Vec<Param>) -> (r: Option<()>)
    ensures
        step_post(
            gen_params(old(g)@, func_name@, crate::ast::params_view(ps@)),
            r is Some,
            final(g)@,
            old(params)@,
            final(params)@,
        ),
{
    let ghost g0 = g@;
    let ghost st0 = params@;
    let ghost psv = crate::ast::params_view(ps@);
    let mut i: usize = 0;
    assert(psv.subrange(0, 0) =~= Seq::<ParamV>::empty());
    #[verifier::loop_isolation(false)]
    while i < ps.len()
        invariant
            i <= ps@.len(),
            psv == crate::ast::params_view(ps@),
            match gen_params(g0, func_name@, psv.subrange(0, i as int)) {
                Some((g1, s1)) => g@ == g1 && stmts_view(params@) == stmts_view(st0) + s1,
                None => false,
            },
        decreases ps@.len() - i,
    {
        assert(psv.subrange(0, i + 1).drop_last() =~= psv.subrange(0, i as int));
        assert(psv.subrange(0, i + 1).last() == ps@[i as int]@);
        let p = &ps[i];
        let n = &p.name;
        let scope = &p.scope;
        let needs = match g.table.entry(scope, n) {
            Some(sym) => !sym.alloc_phy_reg,
            None => false,
        };
        if needs {
            if !g.tunnel.can_set_arg(func_name) {
                proof {
                    lemma_params_prefix_none(g0, func_name@, psv, i + 1);
                }
                return None;
            }
            let t = g.tunnel.set_arg(func_name);
            g.table.set_reg(scope, n, t, true, true);
        }
        emit(params, IrStmt::Param(scope.clone(), n.clone(), func_name.clone()));
        i = i + 1;
    }
    assert(psv.subrange(0, i as int) =~= psv);
    Some(())
}

fn func(g: &mut Gen, f: &Func) -> (r: Option<IrFunc>)
    ensures
        match gen_func(old(g)@, f@) {
            Some((g1, fv)) => r is Some && r->0@ == fv && final(g)@ == g1,
            None => r is None,
        },
{
    let mut stmts: Vec<IrStmt> = Vec::new();
    let mut params: Vec<IrStmt> = Vec::new();
    assert(stmts_view(stmts@) =~= Seq::<IrStmtV>::empty());
    arg(g, &f.name, &mut params, &f.params)?;
    block(g, &mut stmts, &f.stmt)?;
    Some(IrFunc { name: f.name.clone(), stmts, params })
}

/// The declaration of a global variable.
fn global(d: &Decl) -> (r: Option<IrStmt>)
    ensures
        match gen_global(d@) {
            Some(st) => r is Some && r->0@ == st,
            None => r is None,
        },
{
    if d.indexes.len() > 0 {
        Some(IrStmt::DeclGlobalArray(d.name.clone(), crate::symbols::copy_deque(&d.indexes)))
    } else {
        match &d.expr {
            Some(e) => match e {
                Expr::Unary(u) => match u {
                    Unary::Int(i) => Some(IrStmt::DeclGlobal(d.name.clone(), *i)),
                    _ => {
                        assert(!(crate::ast::unary_view(*u) is Int));
                        None
                    },
                },
                _ => None,
            },
            None => None,
        }
    }
}

proof fn lemma_funcs_prefix_none(g: GenV, fs: Seq<FuncV>, k: int)
    requires
        0 <= k <= fs.len(),
        gen_funcs(g, fs.subrange(0, k)) is None,
    ensures
        gen_funcs(g, fs) is None,
    decreases fs.len() - k,
{
    if k < fs.len() {
        assert(fs.subrange(0, k + 1).drop_last() =~= fs.subrange(0, k));
        lemma_funcs_prefix_none(g, fs, k + 1);
    } else {
        assert(fs.subrange(0, k) =~= fs);
    }
}

proof fn lemma_globals_prefix_none(ds: Seq<DeclV>, k: int)
    requires
        0 <= k <= ds.len(),
        gen_globals(ds.subrange(0, k)) is None,
    ensures
        gen_globals(ds) is None,
    decreases ds.len() - k,
{
    if k < ds.len() {
        assert(ds.subrange(0, k + 1).drop_last() =~= ds.subrange(0, k));
        lemma_globals_prefix_none(ds, k + 1);
    } else {
        assert(ds.subrange(0, k) =~= ds);
    }
}

/// Lowers a program into the intermediate representation, or finds that it
/// has none (see `spec_ast2ir`): then the result is `None` and the table is
/// left as it was.
fn lower(p: &Prog, s: &mut SymTab) -> (r: Option<IrProg>)
    ensures
        match spec_ast2ir(p@, old(s)@) {
            Some((ir, t)) => r is Some && r->0@ == ir && final(s)@ == t,
            None => r is None && final(s)@ == old(s)@,
        },
{
    let mut g = Gen { tunnel: ArgTunnel::init(), table: s.copy(), bl: BranchLabel::init(), r: VirtualRegeister::init() };
    let ghost g0 = g@;
    assert(g0 == gen_init(old(s)@));
    let ghost fsv = p@.funcs;
    let mut funcs: Vec<IrFunc> = Vec::new();
    let mut i: usize = 0;
    assert(fsv.subrange(0, 0) =~= Seq::<FuncV>::empty());
    #[verifier::loop_isolation(false)]
    while i < p.funcs.len()
        invariant
            i <= p.funcs@.len(),
            fsv == p@.funcs,
            fsv.len() == p.funcs@.len(),
            match gen_funcs(g0, fsv.subrange(0, i as int)) {
                Some((g1, r1)) => g@ == g1 && ir_funcs_view(funcs@) == r1,
                None => false,
            },
        decreases p.funcs@.len() - i,
    {
        assert(fsv.subrange(0, i + 1).drop_last() =~= fsv.subrange(0, i as int));
        assert(fsv.subrange(0, i + 1).last() == p.funcs@[i as int]@);
        let f = match func(&mut g, &p.funcs[i]) {
            Some(f) => f,
            None => {
                proof {
                    lemma_funcs_prefix_none(g0, fsv, i + 1);
                }
                return None;
            },
        };
        let ghost before = funcs@;
        funcs.push(f);
        assert(ir_funcs_view(funcs@) =~= ir_funcs_view(before).push(f@));
        i = i + 1;
    }
    assert(fsv.subrange(0, i as int) =~= fsv);
    let ghost dsv = p@.global_vars;
    let mut global_vars: Vec<IrStmt> = Vec::new();
    let mut j: usize = 0;
    assert(dsv.subrange(0, 0) =~= Seq::<DeclV>::empty());
    #[verifier::loop_isolation(false)]
    while j < p.global_vars.len()
        invariant
            j <= p.global_vars@.len(),
            dsv == p@.global_vars,
            dsv.len() == p.global_vars@.len(),
            match gen_globals(dsv.subrange(0, j as int)) {
                Some(r1) => stmts_view(global_vars@) == r1,
                None => false,
            },
        decreases p.global_vars@.len() - j,
    {
        assert(dsv.subrange(0, j + 1).drop_last() =~= dsv.subrange(0, j as int));
        assert(dsv.subrange(0, j + 1).last() == p.global_vars@[j as int]@);
        let st = match global(&p.global_vars[j]) {
            Some(st) => st,
            None => {
                proof {
                    lemma_globals_prefix_none(dsv, j + 1);
                }
                return None;
            },
        };
        let ghost before = global_vars@;
        global_vars.push(st);
        assert(stmts_view(global_vars@) =~= stmts_view(before).push(st@));
        j = j + 1;
    }
    assert(dsv.subrange(0, j as int) =~= dsv);
    *s = g.table;
    Some(IrProg { funcs, global_vars })
}

/// Whether `p` has an intermediate representation with the table `s`: every
/// name it reads or writes is declared in a scope open where it stands, every
/// call passes as many arguments as the function called takes, every global
/// scalar is initialised with a number, and the counters of registers and
/// labels do not run out (see `spec_ast2ir`).
pub fn lowerable(p: &Prog, s: &SymTab) -> (b: bool)
    ensures
        b == spec_ast2ir(p@, s@) is Some,
{
    let mut t = s.copy();
    match lower(p, &mut t) {
        Some(_) => true,
        None => false,
    }
}

/// Lowers a program into the intermediate representation; the symbol table
/// then holds the registers given to the variables.
pub fn ast2ir(p: &Prog, s: &mut SymTab) -> (r: IrProg)
    requires
        spec_ast2ir(p@, old(s)@) is Some,
    ensures
        spec_ast2ir(p@, old(s)@) == Some((r@, final(s)@)),
{
    match lower(p, s) {
        Some(r) => r,
        None => {
            proof {
                assert(false);
            }
            IrProg { funcs: Vec::new(), global_vars: Vec::new() }
        },
    }
}

} // verus!
