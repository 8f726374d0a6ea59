//! The bookkeeping of SSA renaming: for each varnode the versions made of it, the stack of
//! versions in scope, and the uses of each version.
use vstd::prelude::*;
use super::types::{AddressSpace, Varnode, SsaVarnode, Vnode};

verus! {

/// The SSA versions of varnodes, listed by varnode (names compared by characters). Where a
/// varnode has more than one entry, the first one counts.
#[derive(Debug)]
pub struct VarnodeMap {
    pub entries: Vec<(Varnode, Vec<SsaVarnode>)>,
}

/// The versions of each varnode that are in scope, the innermost last.
pub type VarnodeStack = VarnodeMap;

impl View for VarnodeMap {
    type V = Seq<(Varnode, Seq<SsaVarnode>)>;

    open spec fn view(&self) -> Seq<(Varnode, Seq<SsaVarnode>)> {
        self.entries@.map_values(|e: (Varnode, Vec<SsaVarnode>)| (e.0, e.1@))
    }
}

/// The position of the first entry for `k` at or after `i`.
pub open spec fn spec_find_from(m: Seq<(Varnode, Seq<SsaVarnode>)>, k: Varnode, i: int) -> Option<int>
    decreases m.len() - i,
{
    if i < 0 || i >= m.len() {
        None
    } else if m[i].0.spec_same(&k) {
        Some(i)
    } else {
        spec_find_from(m, k, i + 1)
    }
}

proof fn lemma_find_in_range(m: Seq<(Varnode, Seq<SsaVarnode>)>, k: Varnode, j: int)
    ensures
        spec_find_from(m, k, j) matches Some(i) ==> j <= i < m.len() && m[i].0.spec_same(&k),
    decreases m.len() - j,
{
    if 0 <= j < m.len() && !m[j].0.spec_same(&k) {
        lemma_find_in_range(m, k, j + 1);
    }
}

/// The versions listed for `k`, if it has an entry.
pub open spec fn spec_versions(m: Seq<(Varnode, Seq<SsaVarnode>)>, k: Varnode) -> Option<Seq<SsaVarnode>> {
    match spec_find_from(m, k, 0) {
        Some(i) => Some(m[i].1),
        None => None,
    }
}

/// `m` with `v` added at the end of the versions of `k` (a new entry where `k` has none).
pub open spec fn spec_push_version(m: Seq<(Varnode, Seq<SsaVarnode>)>, k: Varnode, v: SsaVarnode) -> Seq<(Varnode, Seq<SsaVarnode>)> {
    match spec_find_from(m, k, 0) {
        Some(i) => m.update(i, (m[i].0, m[i].1.push(v))),
        None => m.push((k, seq![v])),
    }
}

/// `m` with the innermost version of `k` removed, where it has one.
pub open spec fn spec_pop_version(m: Seq<(Varnode, Seq<SsaVarnode>)>, k: Varnode) -> Seq<(Varnode, Seq<SsaVarnode>)> {
    match spec_find_from(m, k, 0) {
        Some(i) => if m[i].1.len() > 0 { m.update(i, (m[i].0, m[i].1.drop_last())) } else { m },
        None => m,
    }
}

/// The highest version number in `vs` (0 for none).
pub open spec fn spec_max_version(vs: Seq<SsaVarnode>) -> u32
    decreases vs.len(),
{
    if vs.len() == 0 {
        0
    } else {
        let m = spec_max_version(vs.drop_last());
        if vs.last().version > m { vs.last().version } else { m }
    }
}

/// The number of the next version of `k`: one above the highest made so far, or 0 for a
/// varnode without versions.
pub open spec fn spec_next_version(m: Seq<(Varnode, Seq<SsaVarnode>)>, k: Varnode) -> int {
    match spec_versions(m, k) {
        Some(vs) => if vs.len() > 0 { spec_max_version(vs) + 1 } else { 0 },
        None => 0,
    }
}

/// The innermost version of `k` in scope, if any.
pub open spec fn spec_top(m: Seq<(Varnode, Seq<SsaVarnode>)>, k: Varnode) -> Option<SsaVarnode> {
    match spec_versions(m, k) {
        Some(vs) => if vs.len() > 0 { Some(vs.last()) } else { None },
        None => None,
    }
}

/// A new version of `k` (see `spec_next_version`), and the two maps with it added.
pub open spec fn spec_new_version(
    made: Seq<(Varnode, Seq<SsaVarnode>)>,
    stack: Seq<(Varnode, Seq<SsaVarnode>)>,
    k: Varnode,
) -> (SsaVarnode, Seq<(Varnode, Seq<SsaVarnode>)>, Seq<(Varnode, Seq<SsaVarnode>)>) {
    let v = SsaVarnode { inner: k, version: spec_next_version(made, k) as u32 };
    (v, spec_push_version(made, k, v), spec_push_version(stack, k, v))
}

/// The innermost version of `k` in scope, and the two maps after: a constant is its own
/// version 0; a varnode without a version in scope gets a new one.
pub open spec fn spec_get_top(
    made: Seq<(Varnode, Seq<SsaVarnode>)>,
    stack: Seq<(Varnode, Seq<SsaVarnode>)>,
    k: Varnode,
) -> (SsaVarnode, Seq<(Varnode, Seq<SsaVarnode>)>, Seq<(Varnode, Seq<SsaVarnode>)>) {
    if k.space is Const {
        (SsaVarnode { inner: k, version: 0 }, made, stack)
    } else {
        match spec_top(stack, k) {
            Some(t) => (t, made, stack),
            None => spec_new_version(made, stack, k),
        }
    }
}

/// Whether a new version of `k`, where `spec_get_top` makes one, fits a `u32`.
pub open spec fn spec_top_numbered(
    made: Seq<(Varnode, Seq<SsaVarnode>)>,
    stack: Seq<(Varnode, Seq<SsaVarnode>)>,
    k: Varnode,
) -> bool {
    !(k.space is Const) && spec_top(stack, k) is None ==> spec_next_version(made, k) <= u32::MAX
}

proof fn lemma_find_same_keys(m: Seq<(Varnode, Seq<SsaVarnode>)>, m2: Seq<(Varnode, Seq<SsaVarnode>)>, k: Varnode, j: int)
    requires
        m.len() == m2.len(),
        forall|q: int| 0 <= q < m.len() ==> (#[trigger] m[q]).0 == m2[q].0,
    ensures
        spec_find_from(m2, k, j) == spec_find_from(m, k, j),
    decreases m.len() - j,
{
    if 0 <= j < m.len() && !m[j].0.spec_same(&k) {
        lemma_find_same_keys(m, m2, k, j + 1);
    }
}

proof fn lemma_find_pushed(m: Seq<(Varnode, Seq<SsaVarnode>)>, k: Varnode, e: (Varnode, Seq<SsaVarnode>), j: int)
    requires
        0 <= j <= m.len(),
        spec_find_from(m, k, j) is None,
        e.0 == k,
    ensures
        spec_find_from(m.push(e), k, j) == Some(m.len() as int),
    decreases m.len() - j,
{
    let m2 = m.push(e);
    if j < m.len() {
        assert(m2[j] == m[j]);
        lemma_find_pushed(m, k, e, j + 1);
    } else {
        assert(m2[j] == e);
        assert(k.spec_same(&k));
    }
}

/// A version just put in scope is the innermost version of its varnode.
pub proof fn lemma_push_then_top(m: Seq<(Varnode, Seq<SsaVarnode>)>, k: Varnode, x: SsaVarnode)
    ensures
        spec_top(spec_push_version(m, k, x), k) == Some(x),
{
    lemma_find_in_range(m, k, 0);
    match spec_find_from(m, k, 0) {
        Some(i) => {
            let m2 = spec_push_version(m, k, x);
            lemma_find_same_keys(m, m2, k, 0);
        },
        None => {
            lemma_find_pushed(m, k, (k, seq![x]), 0);
        },
    }
}

/// Leaving the scope of a version just put in scope brings back the version that was
/// innermost before it.
pub proof fn lemma_pop_undoes_push(m: Seq<(Varnode, Seq<SsaVarnode>)>, k: Varnode, x: SsaVarnode)
    ensures
        spec_top(spec_pop_version(spec_push_version(m, k, x), k), k) == spec_top(m, k),
{
    lemma_find_in_range(m, k, 0);
    let m2 = spec_push_version(m, k, x);
    match spec_find_from(m, k, 0) {
        Some(i) => {
            lemma_find_same_keys(m, m2, k, 0);
            assert(m2[i].1.drop_last() =~= m[i].1);
            assert(spec_pop_version(m2, k) =~= m);
        },
        None => {
            lemma_find_pushed(m, k, (k, seq![x]), 0);
            let m3 = spec_pop_version(m2, k);
            lemma_find_same_keys(m2, m3, k, 0);
            assert(m3[m.len() as int].1 =~= Seq::<SsaVarnode>::empty());
        },
    }
}

impl VarnodeMap {
    /// A map without entries.
    pub fn new() -> (r: VarnodeMap)
        ensures
            r@ == Seq::<(Varnode, Seq<SsaVarnode>)>::empty(),
    {
        let r = VarnodeMap { entries: Vec::new() };
        assert(r@ =~= Seq::<(Varnode, Seq<SsaVarnode>)>::empty());
        r
    }

    fn find(&self, k: &Varnode) -> (r: Option<usize>)
        ensures
            match r {
                Some(i) => spec_find_from(self@, *k, 0) == Some(i as int) && i < self.entries@.len(),
                None => spec_find_from(self@, *k, 0) is None,
            },
    {
        proof {
            lemma_find_in_range(self@, *k, 0);
        }
        let mut i: usize = 0;
        while i < self.entries.len()
            invariant
                i <= self@.len(),
                self@.len() == self.entries@.len(),
                spec_find_from(self@, *k, 0) == spec_find_from(self@, *k, i as int),
            decreases self.entries@.len() - i,
        {
            if self.entries[i].0.same(k) {
                return Some(i);
            }
            i = i + 1;
        }
        None
    }

    /// The versions listed for `k`, if it has an entry.
    pub fn get(&self, k: &Varnode) -> (r: Option<&Vec<SsaVarnode>>)
        ensures
            match spec_versions(self@, *k) {
                Some(vs) => r is Some && r.unwrap()@ == vs,
                None => r is None,
            },
    {
        match self.find(k) {
            Some(i) => {
                assert(self@[i as int] == (self.entries@[i as int].0, self.entries@[i as int].1@));
                Some(&self.entries[i].1)
            },
            None => None,
        }
    }

    /// Adds `v` at the end of the versions of `k`.
    pub fn push_version(&mut self, k: &Varnode, v: SsaVarnode)
        ensures
            final(self)@ == spec_push_version(old(self)@, *k, v),
    {
        match self.find(k) {
            Some(i) => {
                let ghost e0 = self.entries@;
                assert(old(self)@[i as int] == (e0[i as int].0, e0[i as int].1@));
                self.entries[i].1.push(v);
                assert forall|j: int| 0 <= j < self@.len() implies self@[j] == spec_push_version(old(self)@, *k, v)[j] by {
                    if j != i {
                        assert(self.entries@[j] == e0[j]);
                    }
                }
                assert(self@ =~= spec_push_version(old(self)@, *k, v));
            },
            None => {
                let mut vs: Vec<SsaVarnode> = Vec::new();
                vs.push(v);
                self.entries.push((k.duplicate(), vs));
                assert(self@ =~= spec_push_version(old(self)@, *k, v));
            },
        }
    }
}

/// The uses of each version: for a version, the ops that use it, each with the positions
/// at which it does. Where a version has more than one entry, the first counts.
#[derive(Debug)]
pub struct VarnodeUses {
    pub entries: Vec<(SsaVarnode, Vec<(usize, Vec<usize>)>)>,
}

/// The number of ops listed as using `v` (0 where it has no entry).
pub open spec fn spec_use_count(es: Seq<(SsaVarnode, Vec<(usize, Vec<usize>)>)>, v: SsaVarnode, i: int) -> int
    decreases es.len() - i,
{
    if i < 0 || i >= es.len() {
        0
    } else if es[i].0.spec_same(&v) {
        es[i].1@.len() as int
    } else {
        spec_use_count(es, v, i + 1)
    }
}

impl Varnode {
    /// Whether the varnode holds a value: a constant always does; another varnode does
    /// where its innermost version in scope is not the initial one.
    pub fn is_live(&self, atom_stack: &VarnodeStack) -> (r: bool)
        ensures
            r == (self.space is Const || (spec_top(atom_stack@, *self) matches Some(t) && t.version > 0)),
    {
        if matches!(self.space, AddressSpace::Const) {
            return true;
        }
        match atom_stack.get(self) {
            Some(vnodes) => vnodes.len() > 0 && vnodes[vnodes.len() - 1].version > 0,
            None => false,
        }
    }

    /// Leaves the scope of the varnode's innermost version.
    pub fn unwind_version(&self, atom_stack: &mut VarnodeStack)
        ensures
            final(atom_stack)@ == spec_pop_version(old(atom_stack)@, *self),
    {
        match atom_stack.find(self) {
            Some(i) => {
                let ghost e0 = atom_stack.entries@;
                assert(old(atom_stack)@[i as int] == (e0[i as int].0, e0[i as int].1@));
                if atom_stack.entries[i].1.len() > 0 {
                    atom_stack.entries[i].1.pop();
                    assert forall|j: int| 0 <= j < atom_stack@.len() implies atom_stack@[j] == spec_pop_version(old(atom_stack)@, *self)[j] by {
                        if j != i {
                            assert(atom_stack.entries@[j] == e0[j]);
                        }
                    }
                    assert(atom_stack@ =~= spec_pop_version(old(atom_stack)@, *self));
                }
            },
            None => {},
        }
    }

    /// The varnode's innermost version in scope; a constant is its own version 0, and a
    /// varnode without a version in scope gets a new one (see `SsaVarnode::new`).
    pub fn get_top(&self, existing_atoms: &mut VarnodeMap, atom_stack: &mut VarnodeStack) -> (r: SsaVarnode)
        requires
            spec_top_numbered(old(existing_atoms)@, old(atom_stack)@, *self),
        ensures
            (r, final(existing_atoms)@, final(atom_stack)@) == spec_get_top(old(existing_atoms)@, old(atom_stack)@, *self),
    {
        if matches!(self.space, AddressSpace::Const) {
            return SsaVarnode { inner: self.duplicate(), version: 0 };
        }
        match atom_stack.get(self) {
            Some(vs) => {
                if vs.len() > 0 {
                    return vs[vs.len() - 1].duplicate();
                }
            },
            None => {},
        }
        SsaVarnode::new(self, existing_atoms, atom_stack)
    }
}

fn max_version(vs: &Vec<SsaVarnode>) -> (r: u32)
    ensures
        r == spec_max_version(vs@),
{
    let mut m: u32 = 0;
    let mut i: usize = 0;
    assert(vs@.take(0) =~= Seq::<SsaVarnode>::empty());
    while i < vs.len()
        invariant
            i <= vs@.len(),
            m == spec_max_version(vs@.take(i as int)),
        decreases vs@.len() - i,
    {
        assert(vs@.take(i + 1).drop_last() =~= vs@.take(i as int));
        if vs[i].version > m {
            m = vs[i].version;
        }
        i = i + 1;
    }
    assert(vs@.take(vs@.len() as int) =~= vs@);
    m
}

impl SsaVarnode {
    /// A new version of `vnode`, numbered one above its highest so far (0 for the first),
    /// recorded among the versions made and put in scope.
    pub fn new(vnode: &Varnode, existing_atoms: &mut VarnodeMap, atom_stack: &mut VarnodeStack) -> (r: SsaVarnode)
        requires
            spec_next_version(old(existing_atoms)@, *vnode) <= u32::MAX,
        ensures
            (r, final(existing_atoms)@, final(atom_stack)@) == spec_new_version(old(existing_atoms)@, old(atom_stack)@, *vnode),
    {
        let mut version: u32 = 0;
        match existing_atoms.get(vnode) {
            Some(vs) => {
                if vs.len() > 0 {
                    version = max_version(vs) + 1;
                }
            },
            None => {},
        }
        let vn = SsaVarnode { inner: vnode.duplicate(), version };
        existing_atoms.push_version(vnode, vn.duplicate());
        atom_stack.push_version(vnode, vn.duplicate());
        vn
    }

    /// Whether no op uses this version.
    pub fn is_dead(&self, uses: &VarnodeUses) -> (r: bool)
        ensures
            r == (spec_use_count(uses.entries@, *self, 0) == 0),
    {
        let mut i: usize = 0;
        while i < uses.entries.len()
            invariant
                i <= uses.entries@.len(),
                spec_use_count(uses.entries@, *self, 0) == spec_use_count(uses.entries@, *self, i as int),
            decreases uses.entries@.len() - i,
        {
            if uses.entries[i].0.same(self) {
                return uses.entries[i].1.len() == 0;
            }
            i = i + 1;
        }
        true
    }
}

} // verus!
