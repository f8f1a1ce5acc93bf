//! The symbol table: what the compiler knows of each variable, keyed by the
//! variable's scope and name.
use vstd::prelude::*;
use std::collections::VecDeque;

verus! {

/// A variable: its name, the register that holds it (once one is allocated),
/// whether a virtual and a physical register were allocated, and the
/// dimensions of the array it names (empty for a scalar).
#[derive(Debug)]
pub struct Symbol {
    pub name: String,
    pub reg: Option<String>,
    pub alloc_virtual_reg: bool,
    pub alloc_phy_reg: bool,
    pub array_range: VecDeque<i32>,
}

pub struct SymbolV {
    pub name: Seq<char>,
    pub reg: Option<Seq<char>>,
    pub alloc_virtual_reg: bool,
    pub alloc_phy_reg: bool,
    pub array_range: Seq<i32>,
}

impl SymbolV {
    /// The symbol once `reg` holds it; `virt` and `phy` set the allocation flags.
    pub open spec fn with_reg(self, reg: Seq<char>, virt: bool, phy: bool) -> SymbolV {
        SymbolV {
            name: self.name,
            reg: Some(reg),
            alloc_virtual_reg: self.alloc_virtual_reg || virt,
            alloc_phy_reg: self.alloc_phy_reg || phy,
            array_range: self.array_range,
        }
    }
}

pub open spec fn opt_str_view(o: Option<String>) -> Option<Seq<char>> {
    match o {
        Some(s) => Some(s@),
        None => None,
    }
}

impl View for Symbol {
    type V = SymbolV;

    open spec fn view(&self) -> SymbolV {
        SymbolV {
            name: self.name@,
            reg: opt_str_view(self.reg),
            alloc_virtual_reg: self.alloc_virtual_reg,
            alloc_phy_reg: self.alloc_phy_reg,
            array_range: self.array_range@,
        }
    }
}

/// A copy of an optional string.
pub fn copy_opt_string(o: &Option<String>) -> (r: Option<String>)
    ensures
        opt_str_view(r) == opt_str_view(*o),
{
    match o {
        Some(s) => Some(s.clone()),
        None => None,
    }
}

/// A copy of a queue of integers.
pub fn copy_deque(d: &VecDeque<i32>) -> (r: VecDeque<i32>)
    ensures
        r@ == d@,
{
    let mut r = VecDeque::new();
    let mut i: usize = 0;
    while i < d.len()
        invariant
            i <= d@.len(),
            r@ == d@.subrange(0, i as int),
        decreases d@.len() - i,
    {
        r.push_back(d[i]);
        i = i + 1;
        assert(r@ =~= d@.subrange(0, i as int));
    }
    assert(d@.subrange(0, d@.len() as int) =~= d@);
    r
}

impl Symbol {
    /// A scalar with no register yet.
    pub fn new(name: String) -> (r: Self)
        ensures
            r@ == (SymbolV {
                name: name@,
                reg: None,
                alloc_virtual_reg: false,
                alloc_phy_reg: false,
                array_range: Seq::empty(),
            }),
    {
        Self {
            name,
            reg: None,
            alloc_virtual_reg: false,
            alloc_phy_reg: false,
            array_range: VecDeque::new(),
        }
    }

    /// A copy of this symbol.
    pub fn copy(&self) -> (r: Self)
        ensures
            r@ == self@,
    {
        Symbol {
            name: self.name.clone(),
            reg: copy_opt_string(&self.reg),
            alloc_virtual_reg: self.alloc_virtual_reg,
            alloc_phy_reg: self.alloc_phy_reg,
            array_range: copy_deque(&self.array_range),
        }
    }
}

struct SymEntry {
    scope: Vec<u32>,
    name: String,
    sym: Symbol,
}

impl SymEntry {
    spec fn key(&self) -> (Seq<u32>, Seq<char>) {
        (self.scope@, self.name@)
    }
}

/// The symbol table. Its view maps (scope, name) to the symbol.
pub struct SymTab {
    table: Vec<SymEntry>,
}

/// Equality of two scopes.
pub fn scope_eq(a: &Vec<u32>, b: &Vec<u32>) -> (r: bool)
    ensures
        r == (a@ == b@),
{
    if a.len() != b.len() {
        return false;
    }
    let mut i: usize = 0;
    while i < a.len()
        invariant
            a@.len() == b@.len(),
            i <= a@.len(),
            forall|j: int| 0 <= j < i ==> a@[j] == b@[j],
        decreases a@.len() - i,
    {
        if a[i] != b[i] {
            return false;
        }
        i = i + 1;
    }
    assert(a@ =~= b@);
    true
}

impl SymTab {
    #[verifier::type_invariant]
    spec fn unique_keys(self) -> bool {
        forall|i: int, j: int|
            0 <= i < self.table@.len() && 0 <= j < self.table@.len() && #[trigger] self.table@[i].key()
                == #[trigger] self.table@[j].key() ==> i == j
    }

    spec fn has(self, k: (Seq<u32>, Seq<char>)) -> bool {
        exists|i: int| 0 <= i < self.table@.len() && #[trigger] self.table@[i].key() == k
    }

    spec fn pos(self, k: (Seq<u32>, Seq<char>)) -> int {
        choose|i: int| 0 <= i < self.table@.len() && #[trigger] self.table@[i].key() == k
    }

    pub closed spec fn view(&self) -> Map<(Seq<u32>, Seq<char>), SymbolV> {
        Map::new(|k: (Seq<u32>, Seq<char>)| self.has(k), |k: (Seq<u32>, Seq<char>)| self.table@[self.pos(k)].sym@)
    }

    proof fn lemma_at(&self, i: int)
        requires
            self.unique_keys(),
            0 <= i < self.table@.len(),
        ensures
            self@.contains_key(self.table@[i].key()),
            self@[self.table@[i].key()] == self.table@[i].sym@,
    {
        let k = self.table@[i].key();
        assert(self.has(k));
        let j = self.pos(k);
        assert(self.table@[j].key() == k);
    }

    /// The position of a key, if present.
    fn find(&self, scope: &Vec<u32>, name: &String) -> (r: Option<usize>)
        ensures
            r is None ==> !self@.contains_key((scope@, name@)),
            r matches Some(i) ==> i < self.table@.len() && self.table@[i as int].key() == (scope@, name@),
    {
        let mut i: usize = 0;
        while i < self.table.len()
            invariant
                i <= self.table@.len(),
                forall|j: int| 0 <= j < i ==> #[trigger] self.table@[j].key() != (scope@, name@),
            decreases self.table@.len() - i,
        {
            let e = &self.table[i];
            if e.name == *name && scope_eq(&e.scope, scope) {
                return Some(i);
            }
            i = i + 1;
        }
        proof {
            if self@.contains_key((scope@, name@)) {
                assert(self.has((scope@, name@)));
                let j = self.pos((scope@, name@));
                assert(self.table@[j].key() == (scope@, name@));
            }
        }
        None
    }

    proof fn lemma_extensional(&self, other: &Self, m: Map<(Seq<u32>, Seq<char>), SymbolV>)
        requires
            self.unique_keys(),
            forall|k: (Seq<u32>, Seq<char>)| #[trigger] m.contains_key(k) <==> self.has(k),
            forall|i: int| 0 <= i < self.table@.len() ==> m[#[trigger] self.table@[i].key()] == self.table@[i].sym@,
        ensures
            self@ == m,
    {
        assert forall|k: (Seq<u32>, Seq<char>)| #[trigger] self@.contains_key(k) implies self@[k] == m[k] by {
            let i = self.pos(k);
            self.lemma_at(i);
        }
        assert(self@ =~= m);
    }

    fn entry_copy(e: &SymEntry) -> (r: SymEntry)
        ensures
            r.key() == e.key(),
            r.sym@ == e.sym@,
    {
        SymEntry { scope: e.scope.clone(), name: e.name.clone(), sym: e.sym.copy() }
    }

    /// A copy of the whole table.
    pub fn copy(&self) -> (r: Self)
        ensures
            r@ == self@,
    {
        proof {
            use_type_invariant(self);
        }
        let mut t: Vec<SymEntry> = Vec::new();
        let mut i: usize = 0;
        while i < self.table.len()
            invariant
                self.unique_keys(),
                i <= self.table@.len(),
                t@.len() == i,
                forall|j: int| 0 <= j < i ==> #[trigger] t@[j].key() == self.table@[j].key() && t@[j].sym@ == self.table@[j].sym@,
            decreases self.table@.len() - i,
        {
            t.push(Self::entry_copy(&self.table[i]));
            i = i + 1;
        }
        let r = SymTab { table: t };
        proof {
            assert forall|k: (Seq<u32>, Seq<char>)| #[trigger] self@.contains_key(k) <==> r.has(k) by {
                if r.has(k) {
                    let j = r.pos(k);
                    assert(self.table@[j].key() == k);
                    assert(self.has(k));
                }
                if self.has(k) {
                    let j = self.pos(k);
                    assert(r.table@[j].key() == k);
                }
            }
            assert forall|i: int| 0 <= i < r.table@.len() implies self@[#[trigger] r.table@[i].key()] == r.table@[i].sym@ by {
                self.lemma_at(i);
            }
            r.lemma_extensional(&r, self@);
        }
        r
    }

    /// Adds `sym` under (`scope`, `name`), replacing what was there.
    pub fn put(&mut self, scope: Vec<u32>, name: String, sym: Symbol)
        ensures
            final(self)@ == old(self)@.insert((scope@, name@), sym@),
    {
        proof {
            use_type_invariant(&*self);
        }
        let ghost k = (scope@, name@);
        let ghost m = old(self)@.insert(k, sym@);
        let ghost old_self = *self;
        let found = self.find(&scope, &name);
        let mut t: Vec<SymEntry> = Vec::new();
        std::mem::swap(&mut t, &mut self.table);
        match found {
            Some(i) => {
                t.set(i, SymEntry { scope, name, sym });
                self.table = t;
                proof {
                    assert forall|a: int, b: int|
                        0 <= a < self.table@.len() && 0 <= b < self.table@.len() && #[trigger] self.table@[a].key()
                            == #[trigger] self.table@[b].key() implies a == b by {
                        assert(old_self.table@[a].key() == self.table@[a].key());
                        assert(old_self.table@[b].key() == self.table@[b].key());
                    }
                    assert forall|k2: (Seq<u32>, Seq<char>)| #[trigger] m.contains_key(k2) <==> self.has(k2) by {
                        if self.has(k2) {
                            let j = self.pos(k2);
                            assert(old_self.table@[j].key() == k2);
                            assert(old_self.has(k2));
                        }
                        if old_self.has(k2) {
                            let j = old_self.pos(k2);
                            assert(self.table@[j].key() == k2);
                        }
                    }
                    assert forall|j: int| 0 <= j < self.table@.len() implies m[#[trigger] self.table@[j].key()] == self.table@[j].sym@ by {
                        if j != i {
                            old_self.lemma_at(j);
                        }
                    }
                    self.lemma_extensional(&*self, m);
                }
            },
            None => {
                t.push(SymEntry { scope, name, sym });
                self.table = t;
                proof {
                    let n = old_self.table@.len() as int;
                    assert forall|a: int, b: int|
                        0 <= a < self.table@.len() && 0 <= b < self.table@.len() && #[trigger] self.table@[a].key()
                            == #[trigger] self.table@[b].key() implies a == b by {
                        if a < n && b == n {
                            assert(old_self.table@[a].key() == k);
                            assert(old_self.has(k));
                        }
                        if b < n && a == n {
                            assert(old_self.table@[b].key() == k);
                            assert(old_self.has(k));
                        }
                    }
                    assert forall|k2: (Seq<u32>, Seq<char>)| #[trigger] m.contains_key(k2) <==> self.has(k2) by {
                        if self.has(k2) {
                            let j = self.pos(k2);
                            if j < n {
                                assert(old_self.table@[j].key() == k2);
                                assert(old_self.has(k2));
                            }
                        }
                        if old_self.has(k2) {
                            let j = old_self.pos(k2);
                            assert(self.table@[j].key() == k2);
                        }
                        if k2 == k {
                            assert(self.table@[n].key() == k2);
                        }
                    }
                    assert forall|j: int| 0 <= j < self.table@.len() implies m[#[trigger] self.table@[j].key()] == self.table@[j].sym@ by {
                        if j < n {
                            old_self.lemma_at(j);
                            assert(old_self.table@[j].key() != k);
                        }
                    }
                    self.lemma_extensional(&*self, m);
                }
            },
        }
    }

    /// Whether (`scope`, `name`) is in the table.
    pub fn contains(&self, scope: &Vec<u32>, name: &String) -> (r: bool)
        ensures
            r == self@.contains_key((scope@, name@)),
    {
        match self.find(scope, name) {
            Some(i) => {
                proof {
                    use_type_invariant(self);
                    self.lemma_at(i as int);
                }
                true
            },
            None => false,
        }
    }

    /// The symbol under (`scope`, `name`), if there is one.
    pub fn entry(&self, scope: &Vec<u32>, name: &String) -> (r: Option<&Symbol>)
        ensures
            r is Some <==> self@.contains_key((scope@, name@)),
            r matches Some(s) ==> s@ == self@[(scope@, name@)],
    {
        match self.find(scope, name) {
            Some(i) => {
                proof {
                    use_type_invariant(self);
                    self.lemma_at(i as int);
                }
                Some(&self.table[i].sym)
            },
            None => None,
        }
    }

    /// The symbol under (`scope`, `name`).
    pub fn get(&self, scope: &Vec<u32>, name: &String) -> (r: &Symbol)
        requires
            self@.contains_key((scope@, name@)),
        ensures
            r@ == self@[(scope@, name@)],
    {
        match self.entry(scope, name) {
            Some(s) => s,
            None => {
                proof {
                    assert(false);
                }
                &self.table[0].sym
            },
        }
    }

    /// Where there is a symbol under (`scope`, `name`), records that `reg`
    /// holds it, setting the virtual (`virt`) and physical (`phy`) allocation
    /// flags; leaves the table unchanged otherwise.
    pub fn set_reg(&mut self, scope: &Vec<u32>, name: &String, reg: String, virt: bool, phy: bool)
        ensures
            old(self)@.contains_key((scope@, name@)) ==> final(self)@ == old(self)@.insert(
                (scope@, name@),
                old(self)@[(scope@, name@)].with_reg(reg@, virt, phy),
            ),
            !old(self)@.contains_key((scope@, name@)) ==> final(self)@ == old(self)@,
    {
        proof {
            use_type_invariant(&*self);
        }
        match self.find(scope, name) {
            Some(i) => {
                proof {
                    self.lemma_at(i as int);
                }
                let e = &self.table[i];
                let sym = Symbol {
                    name: e.sym.name.clone(),
                    reg: Some(reg),
                    alloc_virtual_reg: e.sym.alloc_virtual_reg || virt,
                    alloc_phy_reg: e.sym.alloc_phy_reg || phy,
                    array_range: copy_deque(&e.sym.array_range),
                };
                let sc = e.scope.clone();
                let nm = e.name.clone();
                self.put(sc, nm, sym);
            },
            None => {},
        }
    }

    /// Looks `name` up from scope `env` outwards: the longest non-empty prefix
    /// of `env` under which `name` is declared.
    pub fn extis(&self, env: &Vec<u32>, name: &String) -> (r: (bool, Vec<u32>))
        ensures
            r.0 == resolve(self@, env@, name@) is Some,
            r.0 ==> r.1@ == resolve(self@, env@, name@)->0,
            !r.0 ==> r.1@ == Seq::<u32>::empty(),
    {
        let mut k: usize = env.len();
        assert(env@.subrange(0, k as int) =~= env@);
        while k > 0
            invariant
                k <= env@.len(),
                resolve(self@, env@, name@) == resolve(self@, env@.subrange(0, k as int), name@),
            decreases k,
        {
            let mut prefix: Vec<u32> = Vec::new();
            let mut j: usize = 0;
            while j < k
                invariant
                    j <= k <= env@.len(),
                    prefix@ == env@.subrange(0, j as int),
                decreases k - j,
            {
                prefix.push(env[j]);
                j = j + 1;
                assert(prefix@ =~= env@.subrange(0, j as int));
            }
            if self.contains(&prefix, name) {
                return (true, prefix);
            }
            assert(env@.subrange(0, k as int).drop_last() =~= env@.subrange(0, k - 1));
            k = k - 1;
        }
        (false, Vec::new())
    }
}

/// The scope in which `name` resolves from `env`: the longest non-empty prefix
/// of `env` under which the table declares `name`.
pub open spec fn resolve(m: Map<(Seq<u32>, Seq<char>), SymbolV>, env: Seq<u32>, name: Seq<char>) -> Option<Seq<u32>>
    decreases env.len(),
{
    if env.len() == 0 {
        None
    } else if m.contains_key((env, name)) {
        Some(env)
    } else {
        resolve(m, env.drop_last(), name)
    }
}

/// The scope that `resolve` finds declares the name.
pub proof fn lemma_resolve_contains(m: Map<(Seq<u32>, Seq<char>), SymbolV>, env: Seq<u32>, name: Seq<char>)
    ensures
        resolve(m, env, name) matches Some(sc) ==> m.contains_key((sc, name)),
    decreases env.len(),
{
    if env.len() > 0 && !m.contains_key((env, name)) {
        lemma_resolve_contains(m, env.drop_last(), name);
    }
}

impl SymTab {
    /// An empty table.
    pub fn init() -> (r: Self)
        ensures
            r@ == Map::<(Seq<u32>, Seq<char>), SymbolV>::empty(),
    {
        let r = Self { table: Vec::new() };
        assert(r@ =~= Map::<(Seq<u32>, Seq<char>), SymbolV>::empty());
        r
    }
}

/// A lexical scope.
pub struct Scope {}

} // verus!
