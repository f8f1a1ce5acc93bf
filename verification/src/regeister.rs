//! Register pools used by the code generator.
//!
//! `Regeister` hands out the physical temporaries `t0`..`t9`; `VirtualRegeister`
//! hands out an unbounded supply of virtual registers `v0`, `v1`, ...; both keep a
//! "near" stack of the registers holding the most recently computed values.
//! `ArgTunnel` hands out the argument registers `a0`, `a1`, ... of each function.
use vstd::prelude::*;
use crate::text::{dec_nat, push_u64};

verus! {

/// Abstract state of a register pool: the registers still free (taken from the
/// end) and the stack of registers holding pending values (top at the end).
pub struct RegState {
    pub free: Seq<Seq<char>>,
    pub near: Seq<Seq<char>>,
}

impl RegState {
    /// Takes the next free register; it becomes the top of the near stack.
    pub open spec fn eat(self) -> (RegState, Seq<char>) {
        (RegState { free: self.free.drop_last(), near: self.near.push(self.free.last()) }, self.free.last())
    }

    /// Pops the top of the near stack.
    pub open spec fn near(self) -> (RegState, Seq<char>) {
        (RegState { free: self.free, near: self.near.drop_last() }, self.near.last())
    }

    /// Pushes a register on the near stack.
    pub open spec fn put_near(self, r: Seq<char>) -> RegState {
        RegState { free: self.free, near: self.near.push(r) }
    }
}

/// The temporaries `t0`..`t9`, in the order in which `Regeister::init` stacks them
/// (`t0` is handed out first).
pub open spec fn phys_regs() -> Seq<Seq<char>> {
    seq!["t9"@, "t8"@, "t7"@, "t6"@, "t5"@, "t4"@, "t3"@, "t2"@, "t1"@, "t0"@]
}

/// The pool of physical temporaries.
pub struct Regeister {
    stack: Vec<String>,
    near_stack: Vec<String>,
}

impl View for Regeister {
    type V = RegState;

    closed spec fn view(&self) -> RegState {
        RegState { free: self.stack.deep_view(), near: self.near_stack.deep_view() }
    }
}

fn lit(s: &str) -> (r: String)
    ensures
        r@ == s@,
{
    String::from_str(s)
}

impl Regeister {
    /// A pool holding `t0`..`t9`, with an empty near stack.
    pub fn init() -> (r: Self)
        ensures
            r@ == (RegState { free: phys_regs(), near: Seq::empty() }),
    {
        let stack = vec![lit("t9"), lit("t8"), lit("t7"), lit("t6"), lit("t5"), lit("t4"), lit("t3"), lit("t2"), lit("t1"), lit("t0")];
        let near_stack: Vec<String> = Vec::new();
        let r = Self { stack, near_stack };
        assert(r@.free =~= phys_regs());
        assert(r@.near =~= Seq::<Seq<char>>::empty());
        r
    }

    /// Takes the next free register and pushes it on the near stack.
    pub fn eat(&mut self) -> (r: String)
        requires
            old(self)@.free.len() > 0,
        ensures
            final(self)@ == old(self)@.eat().0,
            r@ == old(self)@.eat().1,
    {
        let a = self.stack.pop().unwrap();
        let b = a.clone();
        self.near_stack.push(a);
        assert(self@.free =~= old(self)@.eat().0.free);
        assert(self@.near =~= old(self)@.eat().0.near);
        b
    }

    /// Pops the register on top of the near stack.
    pub fn near(&mut self) -> (r: String)
        requires
            old(self)@.near.len() > 0,
        ensures
            final(self)@ == old(self)@.near().0,
            r@ == old(self)@.near().1,
    {
        let r = self.near_stack.pop().unwrap();
        assert(self@.near =~= old(self)@.near().0.near);
        r
    }

    /// Pushes a register on the near stack.
    pub fn put_near(&mut self, str: String)
        ensures
            final(self)@ == old(self)@.put_near(str@),
    {
        self.near_stack.push(str);
        assert(self@.near =~= old(self)@.put_near(str@).near);
    }

    /// Whether a register is free.
    pub fn has_free(&self) -> (b: bool)
        ensures
            b == (self@.free.len() > 0),
    {
        self.stack.len() > 0
    }

    /// Whether the near stack holds a register.
    pub fn has_near(&self) -> (b: bool)
        ensures
            b == (self@.near.len() > 0),
    {
        self.near_stack.len() > 0
    }
}

/// Abstract state of the virtual register pool.
pub struct VRegState {
    pub counter: nat,
    pub near: Seq<Seq<char>>,
}

/// The name of the `n`-th virtual register.
pub open spec fn vreg_name(n: nat) -> Seq<char> {
    seq!['v'] + dec_nat(n)
}

impl VRegState {
    pub open spec fn eat(self) -> (VRegState, Seq<char>) {
        (VRegState { counter: self.counter + 1, near: self.near.push(vreg_name(self.counter)) }, vreg_name(self.counter))
    }

    pub open spec fn near(self) -> (VRegState, Seq<char>) {
        (VRegState { counter: self.counter, near: self.near.drop_last() }, self.near.last())
    }

    pub open spec fn put_near(self, r: Seq<char>) -> VRegState {
        VRegState { counter: self.counter, near: self.near.push(r) }
    }
}

/// The pool of virtual registers `v0`, `v1`, ...
pub struct VirtualRegeister {
    counter: u64,
    near_stack: Vec<String>,
}

impl View for VirtualRegeister {
    type V = VRegState;

    closed spec fn view(&self) -> VRegState {
        VRegState { counter: self.counter as nat, near: self.near_stack.deep_view() }
    }
}

impl VirtualRegeister {
    /// A pool that has numbered no register, with an empty near stack.
    pub fn init() -> (r: Self)
        ensures
            r@ == (VRegState { counter: 0, near: Seq::empty() }),
    {
        let r = Self { counter: 0, near_stack: Vec::new() };
        assert(r@.near =~= Seq::<Seq<char>>::empty());
        r
    }

    /// Takes a fresh virtual register and pushes it on the near stack.
    pub fn eat(&mut self) -> (r: String)
        requires
            old(self)@.counter < u64::MAX,
        ensures
            final(self)@ == old(self)@.eat().0,
            r@ == old(self)@.eat().1,
    {
        let mut name = lit("v");
        proof {
            reveal_strlit("v");
        }
        assert("v"@ =~= seq!['v']);
        push_u64(&mut name, self.counter);
        self.counter = self.counter + 1;
        let b = name.clone();
        self.near_stack.push(name);
        assert(self@.near =~= old(self)@.eat().0.near);
        b
    }

    /// Whether another virtual register can be numbered.
    pub fn can_eat(&self) -> (b: bool)
        ensures
            b == (self@.counter < u64::MAX),
    {
        self.counter < u64::MAX
    }

    /// Whether the near stack holds a register.
    pub fn has_near(&self) -> (b: bool)
        ensures
            b == (self@.near.len() > 0),
    {
        self.near_stack.len() > 0
    }

    /// Pops the register on top of the near stack.
    pub fn near(&mut self) -> (r: String)
        requires
            old(self)@.near.len() > 0,
        ensures
            final(self)@ == old(self)@.near().0,
            r@ == old(self)@.near().1,
    {
        let r = self.near_stack.pop().unwrap();
        assert(self@.near =~= old(self)@.near().0.near);
        r
    }

    /// Pushes a register on the near stack.
    pub fn put_near(&mut self, str: String)
        ensures
            final(self)@ == old(self)@.put_near(str@),
    {
        self.near_stack.push(str);
        assert(self@.near =~= old(self)@.put_near(str@).near);
    }
}

/// The name of the `n`-th argument register.
pub open spec fn arg_reg_name(n: nat) -> Seq<char> {
    seq!['a'] + dec_nat(n)
}

/// Per function: how many parameters took an argument register, and how many
/// arguments of the call being generated took one.
pub type TunnelState = Map<Seq<char>, (nat, nat)>;

pub open spec fn tunnel_counts(m: TunnelState, f: Seq<char>) -> (nat, nat) {
    if m.contains_key(f) {
        m[f]
    } else {
        (0, 0)
    }
}

/// Set the parameter registers of `f`: the next one is handed out.
pub open spec fn tunnel_set_arg(m: TunnelState, f: Seq<char>) -> (TunnelState, Seq<char>) {
    let (p, a) = tunnel_counts(m, f);
    (m.insert(f, ((p + 1) as nat, a)), arg_reg_name(p))
}

/// Passing one more argument to `f`: the register that receives it.
pub open spec fn tunnel_get_arg(m: TunnelState, f: Seq<char>) -> (TunnelState, Seq<char>) {
    let (p, a) = tunnel_counts(m, f);
    (m.insert(f, (p, (a + 1) as nat)), arg_reg_name(a))
}

/// Whether a call passed `f` as many arguments as `f` has parameters; the
/// argument count starts over for the next call.
pub open spec fn tunnel_is_match(m: TunnelState, f: Seq<char>) -> (TunnelState, bool) {
    let (p, a) = tunnel_counts(m, f);
    (m.insert(f, (p, 0)), a == p)
}

struct TunnelEntry {
    func: String,
    params: u64,
    args: u64,
}

/// The argument registers of each function.
pub struct ArgTunnel {
    entries: Vec<TunnelEntry>,
}

impl ArgTunnel {
    #[verifier::type_invariant]
    spec fn unique_funcs(self) -> bool {
        forall|i: int, j: int|
            0 <= i < self.entries@.len() && 0 <= j < self.entries@.len() && #[trigger] self.entries@[i].func@
                == #[trigger] self.entries@[j].func@ ==> i == j
    }

    spec fn has(self, f: Seq<char>) -> bool {
        exists|i: int| 0 <= i < self.entries@.len() && #[trigger] self.entries@[i].func@ == f
    }

    spec fn pos(self, f: Seq<char>) -> int {
        choose|i: int| 0 <= i < self.entries@.len() && #[trigger] self.entries@[i].func@ == f
    }

    pub closed spec fn view(&self) -> TunnelState {
        Map::new(
            |f: Seq<char>| self.has(f),
            |f: Seq<char>| (self.entries@[self.pos(f)].params as nat, self.entries@[self.pos(f)].args as nat),
        )
    }

    pub closed spec fn bounded(&self) -> bool {
        forall|i: int| 0 <= i < self.entries@.len() ==> #[trigger] self.entries@[i].params < u64::MAX
            && self.entries@[i].args < u64::MAX
    }

    proof fn lemma_at(&self, i: int)
        requires
            self.unique_funcs(),
            0 <= i < self.entries@.len(),
        ensures
            self@.contains_key(self.entries@[i].func@),
            self@[self.entries@[i].func@] == (self.entries@[i].params as nat, self.entries@[i].args as nat),
    {
        let f = self.entries@[i].func@;
        assert(self.has(f));
        let j = self.pos(f);
        assert(self.entries@[j].func@ == f);
    }

    /// No function has argument registers yet.
    pub fn init() -> (r: Self)
        ensures
            r@ == TunnelState::empty(),
    {
        let r = Self { entries: Vec::new() };
        assert(r@ =~= TunnelState::empty());
        r
    }

    fn counts(&self, f: &String) -> (r: (u64, u64))
        ensures
            (r.0 as nat, r.1 as nat) == tunnel_counts(self@, f@),
    {
        proof {
            use_type_invariant(self);
        }
        let mut i: usize = 0;
        while i < self.entries.len()
            invariant
                self.unique_funcs(),
                i <= self.entries@.len(),
                forall|j: int| 0 <= j < i ==> #[trigger] self.entries@[j].func@ != f@,
            decreases self.entries@.len() - i,
        {
            if self.entries[i].func == *f {
                proof {
                    self.lemma_at(i as int);
                }
                return (self.entries[i].params, self.entries[i].args);
            }
            i = i + 1;
        }
        proof {
            if self@.contains_key(f@) {
                let j = self.pos(f@);
                assert(self.entries@[j].func@ == f@);
            }
        }
        (0, 0)
    }

    fn find(&self, f: &String) -> (r: Option<usize>)
        ensures
            r is None ==> forall|j: int| 0 <= j < self.entries@.len() ==> #[trigger] self.entries@[j].func@ != f@,
            r matches Some(i) ==> i < self.entries@.len() && self.entries@[i as int].func@ == f@,
    {
        let mut i: usize = 0;
        while i < self.entries.len()
            invariant
                i <= self.entries@.len(),
                forall|j: int| 0 <= j < i ==> #[trigger] self.entries@[j].func@ != f@,
            decreases self.entries@.len() - i,
        {
            if self.entries[i].func == *f {
                return Some(i);
            }
            i = i + 1;
        }
        None
    }

    fn update(&mut self, f: &String, p: u64, a: u64)
        ensures
            final(self)@ == old(self)@.insert(f@, (p as nat, a as nat)),
    {
        proof {
            use_type_invariant(&*self);
        }
        let ghost old_self = *self;
        let ghost m = old(self)@.insert(f@, (p as nat, a as nat));
        let found = self.find(f);
        let mut t: Vec<TunnelEntry> = Vec::new();
        std::mem::swap(&mut t, &mut self.entries);
        let n = t.len();
        match found {
            Some(k) => {
                t.set(k, TunnelEntry { func: f.clone(), params: p, args: a });
            },
            None => {
                t.push(TunnelEntry { func: f.clone(), params: p, args: a });
            },
        }
        let ghost k = if found is Some { found->0 as int } else { n as int };
        proof {
            assert(t@[k].func@ == f@);
            assert forall|x: int, y: int|
                0 <= x < t@.len() && 0 <= y < t@.len() && #[trigger] t@[x].func@
                    == #[trigger] t@[y].func@ implies x == y by {
                if x != k && y != k && x < n && y < n {
                    assert(old_self.entries@[x].func@ == t@[x].func@);
                    assert(old_self.entries@[y].func@ == t@[y].func@);
                } else if x == k && y != k && y < n {
                    assert(old_self.entries@[y].func@ == f@);
                } else if y == k && x != k && x < n {
                    assert(old_self.entries@[x].func@ == f@);
                }
            }
        }
        self.entries = t;
        proof {
            assert forall|g: Seq<char>| #[trigger] m.contains_key(g) <==> self.has(g) by {
                if self.has(g) {
                    let j = self.pos(g);
                    if j != k && j < n {
                        assert(old_self.entries@[j].func@ == g);
                        assert(old_self.has(g));
                    }
                }
                if old_self.has(g) {
                    let j = old_self.pos(g);
                    assert(self.entries@[j].func@ == g || j == k);
                }
            }
            assert forall|g: Seq<char>| #[trigger] self@.contains_key(g) implies self@[g] == m[g] by {
                let j = self.pos(g);
                self.lemma_at(j);
                if j != k {
                    assert(old_self.entries@[j].func@ == g);
                    old_self.lemma_at(j);
                }
            }
            assert(self@ =~= m);
        }
    }

    /// Whether `f` can take one more parameter register.
    pub fn can_set_arg(&self, f: &String) -> (b: bool)
        ensures
            b == (tunnel_counts(self@, f@).0 < u64::MAX),
    {
        self.counts(f).0 < u64::MAX
    }

    /// Whether a call of `f` can pass one more argument.
    pub fn can_get_arg(&self, f: &String) -> (b: bool)
        ensures
            b == (tunnel_counts(self@, f@).1 < u64::MAX),
    {
        self.counts(f).1 < u64::MAX
    }

    /// The register of the next parameter of `f`.
    pub fn set_arg(&mut self, f: &String) -> (r: String)
        requires
            tunnel_counts(old(self)@, f@).0 < u64::MAX,
        ensures
            (final(self)@, r@) == tunnel_set_arg(old(self)@, f@),
    {
        let (p, a) = self.counts(f);
        self.update(f, p + 1, a);
        let mut name = lit("a");
        proof {
            reveal_strlit("a");
        }
        assert("a"@ =~= seq!['a']);
        push_u64(&mut name, p);
        name
    }

    /// The register that receives the next argument of a call of `f`.
    pub fn get_arg(&mut self, f: &String) -> (r: String)
        requires
            tunnel_counts(old(self)@, f@).1 < u64::MAX,
        ensures
            (final(self)@, r@) == tunnel_get_arg(old(self)@, f@),
    {
        let (p, a) = self.counts(f);
        self.update(f, p, a + 1);
        let mut name = lit("a");
        proof {
            reveal_strlit("a");
        }
        assert("a"@ =~= seq!['a']);
        push_u64(&mut name, a);
        name
    }

    /// Whether the call of `f` being generated passed as many arguments as `f`
    /// has parameters; the argument count of `f` starts over.
    pub fn is_match(&mut self, f: &String) -> (r: bool)
        ensures
            (final(self)@, r) == tunnel_is_match(old(self)@, f@),
    {
        let (p, a) = self.counts(f);
        self.update(f, p, 0);
        a == p
    }
}

} // verus!
