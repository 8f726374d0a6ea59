//! Compound varnodes: a varnode, or a list of byte-sized pieces that are printed as the
//! registers and runs they make up.
use vstd::prelude::*;
use std::sync::Arc;
use super::types::{AddressSpace, Address, Varnode, VarnodeIface, VarnodeIface2, Vnode, spec_same_space, clone_space, spec_atoms};
use crate::text::{push_str, spec_join};

verus! {

/// The parts of a compound varnode: one varnode, or several.
#[derive(Debug)]
pub enum VarnodeComps<V> {
    Simple(V),
    Complex(Vec<V>),
}

/// A compound varnode with the registers of its language by offset (each list sorted by
/// size), which name the runs of its pieces.
#[derive(Debug)]
pub struct GenericCompoundVarnode<V> {
    pub comps: VarnodeComps<V>,
    pub reg_sizes: Arc<Vec<Vec<Varnode>>>,
}

/// A compound of plain varnodes.
pub type CompoundVarnode = GenericCompoundVarnode<Varnode>;

/// The walk that coalescing makes over `atoms` from position `i` on: a piece that does not
/// directly follow its predecessor closes the run begun at `start` (the closed run takes
/// the offset of its first piece and, as its size, the distance from its first to its last
/// piece, on the template of the piece that opens the next run); the last run spans from
/// its first piece through the last piece. `None` where an offset difference would
/// underflow or the last offset overflow.
spec fn spec_coalesce_from<V: Vnode>(atoms: Seq<V>, i: int, start: int, acc: Seq<V>) -> Option<Seq<V>>
    decreases atoms.len() - i,
{
    if i >= atoms.len() {
        let last = atoms.last();
        let s = atoms[start].spec_offset();
        if s <= last.spec_offset() {
            if last.spec_offset() + 1 <= u64::MAX {
                Some(acc.push(last.spec_copy_with(s, (last.spec_offset() + 1 - s) as u32, None)))
            } else {
                None
            }
        } else {
            Some(acc)
        }
    } else if i < 1 || start < 0 || start >= i {
        None
    } else {
        let atom = atoms[i];
        let prev = atoms[i - 1];
        if !atom.spec_is_next(&prev) {
            let s = atoms[start].spec_offset();
            if prev.spec_offset() < s {
                None
            } else {
                spec_coalesce_from(atoms, i + 1, i, acc.push(atom.spec_copy_with(s, (prev.spec_offset() - s) as u32, None)))
            }
        } else {
            spec_coalesce_from(atoms, i + 1, start, acc)
        }
    }
}

/// Where the run of pieces that begins at `from` ends: the first later position whose
/// piece does not directly follow the one before it, `atoms.len()` where all do.
pub open spec fn spec_piece_run_end<V: Vnode>(atoms: Seq<V>, from: int) -> int
    decreases atoms.len() - from,
{
    if from + 1 >= atoms.len() {
        atoms.len() as int
    } else if !atoms[from + 1].spec_is_next(&atoms[from]) {
        from + 1
    } else {
        spec_piece_run_end(atoms, from + 1)
    }
}

/// The runs of pieces from position `start` on, each as one varnode without a name that
/// starts at the offset of the run's first piece. A run that another follows takes, as
/// its size, the distance from its first to its last piece, on the template of the piece
/// that opens the next run; the last run spans its first piece through the last piece, on
/// the template of the last piece (nothing where that piece lies before the run's first).
/// `None` where a run's last piece lies before its first, or the last offset is the
/// largest one.
pub open spec fn spec_runs<V: Vnode>(atoms: Seq<V>, start: int) -> Option<Seq<V>>
    decreases atoms.len() - start,
{
    if start < 0 || start >= atoms.len() {
        Some(Seq::empty())
    } else {
        let e = spec_piece_run_end(atoms, start);
        let s = atoms[start].spec_offset();
        if e >= atoms.len() {
            let last = atoms.last();
            if s <= last.spec_offset() {
                if last.spec_offset() + 1 <= u64::MAX {
                    Some(seq![last.spec_copy_with(s, (last.spec_offset() + 1 - s) as u32, None)])
                } else {
                    None
                }
            } else {
                Some(Seq::empty())
            }
        } else if e <= start {
            None
        } else {
            let prev = atoms[e - 1];
            if prev.spec_offset() < s {
                None
            } else {
                match spec_runs(atoms, e) {
                    Some(rest) => Some(seq![atoms[e].spec_copy_with(s, (prev.spec_offset() - s) as u32, None)] + rest),
                    None => None,
                }
            }
        }
    }
}

/// The pieces coalesced into runs (see `spec_runs`); no pieces give no runs.
pub open spec fn spec_coalesce<V: Vnode>(atoms: Seq<V>) -> Option<Seq<V>> {
    spec_runs(atoms, 0)
}

proof fn lemma_piece_run_end<V: Vnode>(atoms: Seq<V>, from: int)
    requires
        0 <= from < atoms.len(),
    ensures
        from < spec_piece_run_end(atoms, from) <= atoms.len(),
        forall|k: int| from < k < spec_piece_run_end(atoms, from) ==> #[trigger] atoms[k].spec_is_next(&atoms[k - 1]),
        spec_piece_run_end(atoms, from) < atoms.len() ==> !atoms[spec_piece_run_end(atoms, from)].spec_is_next(&atoms[spec_piece_run_end(atoms, from) - 1]),
    decreases atoms.len() - from,
{
    if from + 1 < atoms.len() && atoms[from + 1].spec_is_next(&atoms[from]) {
        lemma_piece_run_end(atoms, from + 1);
    }
}

/// Where the runs of `atoms` from `start` on begin: at `start`, then at each piece that
/// does not directly follow the one before it.
pub open spec fn spec_run_starts<V: Vnode>(atoms: Seq<V>, start: int) -> Seq<int>
    decreases atoms.len() - start,
{
    if start < 0 || start >= atoms.len() {
        Seq::empty()
    } else {
        let e = spec_piece_run_end(atoms, start);
        if e <= start || e > atoms.len() {
            seq![start]
        } else {
            seq![start] + spec_run_starts(atoms, e)
        }
    }
}

proof fn lemma_run_offsets(atoms: Seq<Varnode>, start: int, k: int)
    requires
        0 <= start <= k < spec_piece_run_end(atoms, start),
        start < atoms.len(),
    ensures
        atoms[k].offset == atoms[start].offset + (k - start),
    decreases k - start,
{
    lemma_piece_run_end(atoms, start);
    if k > start {
        lemma_run_offsets(atoms, start, k - 1);
        assert(atoms[k].spec_is_next(&atoms[k - 1]));
    }
}

/// Coalescing gives one varnode per run of pieces, in order, each without a name and at
/// the offset of its run's first piece; every run but the last takes as its size one less
/// than its number of pieces, the last its number of pieces.
pub proof fn lemma_runs_pieces(atoms: Seq<Varnode>, start: int)
    requires
        0 <= start,
    ensures
        spec_runs(atoms, start) matches Some(r) ==> ({
            let st = spec_run_starts(atoms, start);
            &&& r.len() == st.len()
            &&& forall|j: int| 0 <= j < r.len() ==> (#[trigger] r[j]).offset == atoms[st[j]].offset && r[j].name is None
            &&& forall|j: int| 0 <= j < r.len() - 1 ==> (#[trigger] r[j]).size == (st[j + 1] - 1 - st[j]) as u32
            &&& r.len() > 0 ==> r.last().size == (atoms.len() - st.last()) as u32
        }),
    decreases atoms.len() - start,
{
    if start < atoms.len() {
        lemma_piece_run_end(atoms, start);
        let e = spec_piece_run_end(atoms, start);
        let s = atoms[start].offset;
        if e >= atoms.len() {
            lemma_run_offsets(atoms, start, atoms.len() - 1);
        } else {
            lemma_run_offsets(atoms, start, e - 1);
            lemma_runs_pieces(atoms, e);
            lemma_piece_run_end(atoms, e);
            match spec_runs(atoms, e) {
                Some(rest) => {
                    let piece = atoms[e].spec_copy_with(s, (atoms[e - 1].offset - s) as u32, None);
                    let r = seq![piece] + rest;
                    let st = spec_run_starts(atoms, start);
                    let st2 = spec_run_starts(atoms, e);
                    assert(st == seq![start] + st2);
                    assert(st2.len() >= 1);
                    assert forall|j: int| 0 <= j < r.len() implies (#[trigger] r[j]).offset == atoms[st[j]].offset && r[j].name is None by {
                        if j > 0 {
                            assert(r[j] == rest[j - 1]);
                            assert(st[j] == st2[j - 1]);
                        }
                    }
                    assert forall|j: int| 0 <= j < r.len() - 1 implies (#[trigger] r[j]).size == (st[j + 1] - 1 - st[j]) as u32 by {
                        if j > 0 {
                            assert(r[j] == rest[j - 1]);
                            assert(st[j] == st2[j - 1]);
                            assert(st[j + 1] == st2[j]);
                        } else {
                            assert(st[1] == st2[0]);
                        }
                    }
                    assert(r.last() == rest.last());
                    assert(st.last() == st2.last());
                },
                None => {},
            }
        }
    }
}

proof fn lemma_walk_is_runs<V: Vnode>(atoms: Seq<V>, i: int, start: int, acc: Seq<V>)
    requires
        0 <= start < i <= atoms.len(),
        spec_piece_run_end(atoms, start) >= i,
    ensures
        spec_coalesce_from(atoms, i, start, acc) == match spec_runs(atoms, start) {
            Some(r) => Some(acc + r),
            None => None,
        },
    decreases atoms.len() - i,
{
    lemma_piece_run_end(atoms, start);
    if i >= atoms.len() {
        assert(acc.push(atoms.last().spec_copy_with(atoms[start].spec_offset(), (atoms.last().spec_offset() + 1 - atoms[start].spec_offset()) as u32, None))
            =~= acc + seq![atoms.last().spec_copy_with(atoms[start].spec_offset(), (atoms.last().spec_offset() + 1 - atoms[start].spec_offset()) as u32, None)]);
        assert(acc + Seq::<V>::empty() =~= acc);
    } else if !atoms[i].spec_is_next(&atoms[i - 1]) {
        assert(spec_piece_run_end(atoms, start) == i);
        lemma_piece_run_end(atoms, i);
        let piece = atoms[i].spec_copy_with(atoms[start].spec_offset(), (atoms[i - 1].spec_offset() - atoms[start].spec_offset()) as u32, None);
        lemma_walk_is_runs(atoms, i + 1, i, acc.push(piece));
        match spec_runs(atoms, i) {
            Some(rest) => {
                assert(acc.push(piece) + rest =~= acc + (seq![piece] + rest));
            },
            None => {},
        }
    } else {
        assert(spec_piece_run_end(atoms, start) >= i + 1);
        lemma_walk_is_runs(atoms, i + 1, start, acc);
    }
}

/// Coalesces pieces of one space into runs of consecutive pieces (see `spec_coalesce`).
/// Each run but the last gets, as its size, the distance from its first to its last piece,
/// one less than the number of its bytes, and the template of the piece after it; only the
/// last run's size is its full length.
pub fn _coalesce_atoms<V: Vnode>(atoms: &Vec<V>) -> (r: Option<Vec<V>>)
    ensures
        match spec_coalesce(atoms@) {
            Some(c) => r is Some && r.unwrap()@ == c,
            None => r is None,
        },
{
    let mut comps: Vec<V> = Vec::new();
    if atoms.len() == 0 {
        return Some(comps);
    }
    let mut start: usize = 0;
    let mut i: usize = 1;
    proof {
        lemma_piece_run_end(atoms@, 0);
        lemma_walk_is_runs(atoms@, 1, 0, Seq::empty());
        match spec_runs(atoms@, 0) {
            Some(r) => assert(Seq::<V>::empty() + r =~= r),
            None => {},
        }
    }
    while i < atoms.len()
        invariant
            1 <= i <= atoms@.len(),
            start < i,
            spec_coalesce(atoms@) == spec_coalesce_from(atoms@, i as int, start as int, comps@),
        decreases atoms@.len() - i,
    {
        let atom = &atoms[i];
        let prev = &atoms[i - 1];
        if !atom.is_next(prev) {
            let s = atoms[start].offset();
            let p = prev.offset();
            if p < s {
                return None;
            }
            let size: u32 = #[verifier::truncate] ((p - s) as u32);
            comps.push(atom.copy_with(s, size, None));
            start = i;
        }
        i = i + 1;
    }
    let last = &atoms[atoms.len() - 1];
    let s = atoms[start].offset();
    let lo = last.offset();
    if s <= lo {
        if lo == u64::MAX {
            return None;
        }
        let size: u32 = #[verifier::truncate] ((lo + 1 - s) as u32);
        comps.push(last.copy_with(s, size, None));
    }
    Some(comps)
}

/// The pieces of `atoms` in `space`, in order.
pub open spec fn spec_space_atoms<V: Vnode>(atoms: Seq<V>, space: AddressSpace) -> Seq<V>
    decreases atoms.len(),
{
    if atoms.len() == 0 {
        Seq::empty()
    } else if spec_same_space(atoms.last().spec_space(), space) {
        spec_space_atoms(atoms.drop_last(), space).push(atoms.last())
    } else {
        spec_space_atoms(atoms.drop_last(), space)
    }
}

/// The pieces that lie in `space`, in order.
pub fn space_atoms<V: Vnode>(atoms: &Vec<V>, space: &AddressSpace) -> (r: Vec<V>)
    ensures
        r@ == spec_space_atoms(atoms@, *space),
{
    let mut r: Vec<V> = Vec::new();
    let mut i: usize = 0;
    while i < atoms.len()
        invariant
            i <= atoms@.len(),
            r@ == spec_space_atoms(atoms@.take(i as int), *space),
        decreases atoms@.len() - i,
    {
        assert(atoms@.take(i + 1).drop_last() =~= atoms@.take(i as int));
        if *atoms[i].space() == *space {
            r.push(atoms[i].duplicate());
        }
        i = i + 1;
    }
    assert(atoms@.take(atoms@.len() as int) =~= atoms@);
    r
}

/// Where the run of register pieces from `j` that start no register and each follow the
/// one before ends; `None` where a piece lies beyond the register table.
pub open spec fn spec_run_end<V: Vnode>(atoms: Seq<V>, rs: Seq<Vec<Varnode>>, j: int) -> Option<int>
    decreases atoms.len() - j,
{
    if 1 <= j < atoms.len() {
        let o = atoms[j].spec_offset();
        if o >= rs.len() {
            None
        } else if rs[o as int]@.len() == 0 && atoms[j].spec_is_next(&atoms[j - 1]) {
            spec_run_end(atoms, rs, j + 1)
        } else {
            Some(j)
        }
    } else {
        Some(j)
    }
}

/// Whether the `n` pieces from `i` each follow the one before.
pub open spec fn spec_contiguous<V: Vnode>(atoms: Seq<V>, i: int, n: int) -> bool {
    forall|j: int| 1 <= j < n ==> #[trigger] atoms[i + j].spec_is_next(&atoms[i + j - 1])
}

/// The register, among `regs[k..]` (sorted by size), that the pieces from `i` make up:
/// the last one whose pieces are there and follow one another, looking no further than
/// the first one with more pieces than are left.
pub open spec fn spec_match_reg<V: Vnode>(atoms: Seq<V>, regs: Seq<Varnode>, i: int, k: int, matched: Option<int>) -> Option<int>
    decreases regs.len() - k,
{
    if 0 <= k < regs.len() {
        let n = regs[k].size as int;
        if n > atoms.len() - i {
            matched
        } else if spec_contiguous(atoms, i, n) {
            spec_match_reg(atoms, regs, i, k + 1, Some(k))
        } else {
            spec_match_reg(atoms, regs, i, k + 1, matched)
        }
    } else {
        matched
    }
}

/// Whether the pieces from `i` make up register `regs[k]`: it and every register listed
/// before it have no more pieces than are left, and its pieces follow one another.
pub open spec fn spec_makes_up_reg<V: Vnode>(atoms: Seq<V>, regs: Seq<Varnode>, i: int, k: int) -> bool {
    &&& 0 <= k < regs.len()
    &&& forall|m: int| 0 <= m <= k ==> #[trigger] regs[m].size <= atoms.len() - i
    &&& spec_contiguous(atoms, i, regs[k].size as int)
}

proof fn lemma_match_reg_last<V: Vnode>(atoms: Seq<V>, regs: Seq<Varnode>, i: int, k: int, matched: Option<int>)
    requires
        0 <= k <= regs.len(),
        forall|m: int| 0 <= m < k ==> #[trigger] regs[m].size <= atoms.len() - i,
        matched is None ==> forall|k2: int| 0 <= k2 < k ==> !spec_makes_up_reg(atoms, regs, i, k2),
        matched matches Some(m0) ==> m0 < k && spec_makes_up_reg(atoms, regs, i, m0) && forall|k2: int|
            m0 < k2 < k ==> !spec_makes_up_reg(atoms, regs, i, k2),
    ensures
        match spec_match_reg(atoms, regs, i, k, matched) {
            Some(r) => spec_makes_up_reg(atoms, regs, i, r) && forall|k2: int|
                r < k2 ==> !spec_makes_up_reg(atoms, regs, i, k2),
            None => forall|k2: int| !spec_makes_up_reg(atoms, regs, i, k2),
        },
    decreases regs.len() - k,
{
    if k < regs.len() {
        let n = regs[k].size as int;
        if n > atoms.len() - i {
            assert forall|k2: int| k <= k2 implies !spec_makes_up_reg(atoms, regs, i, k2) by {
                if k2 < regs.len() {
                    assert(regs[k].size > atoms.len() - i);
                }
            }
        } else if spec_contiguous(atoms, i, n) {
            assert(spec_makes_up_reg(atoms, regs, i, k));
            lemma_match_reg_last(atoms, regs, i, k + 1, Some(k));
        } else {
            assert(!spec_makes_up_reg(atoms, regs, i, k));
            lemma_match_reg_last(atoms, regs, i, k + 1, matched);
        }
    }
}

/// At an offset where registers start, the register that coalescing picks is the last
/// listed (the largest) that the pieces make up: no register after it is made up by them,
/// and where none is picked, none is made up.
pub proof fn lemma_match_reg_largest<V: Vnode>(atoms: Seq<V>, regs: Seq<Varnode>, i: int)
    ensures
        match spec_match_reg(atoms, regs, i, 0, None) {
            Some(k) => spec_makes_up_reg(atoms, regs, i, k) && forall|k2: int|
                k < k2 ==> !spec_makes_up_reg(atoms, regs, i, k2),
            None => forall|k2: int| !spec_makes_up_reg(atoms, regs, i, k2),
        },
{
    lemma_match_reg_last(atoms, regs, i, 0, None);
}

/// The walk that coalescing register pieces makes from `i` on, adding to `acc`.
spec fn spec_reg_coalesce_from<V: Vnode>(atoms: Seq<V>, rs: Seq<Vec<Varnode>>, i: int, acc: Seq<V>) -> Option<Seq<V>>
    decreases atoms.len() - i,
{
    if i < 0 || i >= atoms.len() {
        Some(acc)
    } else {
        let off = atoms[i].spec_offset();
        if off >= rs.len() {
            None
        } else if rs[off as int]@.len() == 0 {
            match spec_run_end(atoms, rs, i + 1) {
                None => None,
                Some(e) => {
                    let last = atoms[e - 1].spec_offset();
                    if e <= i || e > atoms.len() || last < off || last - off == u64::MAX {
                        None
                    } else {
                        spec_reg_coalesce_from(atoms, rs, e, acc.push(atoms[i].spec_copy_with(off, (last - off + 1) as u32, None)))
                    }
                },
            }
        } else {
            let regs = rs[off as int]@;
            match spec_match_reg(atoms, regs, i, 0, None) {
                Some(k) => {
                    let reg = regs[k];
                    if reg.size == 0 || i + reg.size > atoms.len() {
                        None
                    } else {
                        spec_reg_coalesce_from(atoms, rs, i + reg.size, acc.push(atoms[i].spec_copy_with(reg.offset, reg.size, reg.name)))
                    }
                },
                None => spec_reg_coalesce_from(atoms, rs, i + 1, acc.push(atoms[i].spec_copy_with(off, 1, None))),
            }
        }
    }
}

/// The register pieces from `i` on, coalesced group by group: a piece at an offset where
/// no register starts opens a run of the pieces that follow it at such offsets (see
/// `spec_run_end`), made one varnode without a name from its first through its last piece;
/// a piece where registers start makes up the register that `spec_match_reg` picks, which
/// takes its place with the register's offset, size and name; where none is picked the
/// piece stays alone. `None` where a piece lies beyond the register table, a run goes
/// backwards or ends at the largest offset, or a register has no size.
pub open spec fn spec_reg_groups<V: Vnode>(atoms: Seq<V>, rs: Seq<Vec<Varnode>>, i: int) -> Option<Seq<V>>
    decreases atoms.len() - i,
{
    if i < 0 || i >= atoms.len() {
        Some(Seq::empty())
    } else {
        let off = atoms[i].spec_offset();
        if off >= rs.len() {
            None
        } else if rs[off as int]@.len() == 0 {
            match spec_run_end(atoms, rs, i + 1) {
                None => None,
                Some(e) => {
                    let last = atoms[e - 1].spec_offset();
                    if e <= i || e > atoms.len() || last < off || last - off == u64::MAX {
                        None
                    } else {
                        match spec_reg_groups(atoms, rs, e) {
                            Some(rest) => Some(seq![atoms[i].spec_copy_with(off, (last - off + 1) as u32, None)] + rest),
                            None => None,
                        }
                    }
                },
            }
        } else {
            let regs = rs[off as int]@;
            match spec_match_reg(atoms, regs, i, 0, None) {
                Some(k) => {
                    let reg = regs[k];
                    if reg.size == 0 || i + reg.size > atoms.len() {
                        None
                    } else {
                        match spec_reg_groups(atoms, rs, i + reg.size) {
                            Some(rest) => Some(seq![atoms[i].spec_copy_with(reg.offset, reg.size, reg.name)] + rest),
                            None => None,
                        }
                    }
                },
                None => match spec_reg_groups(atoms, rs, i + 1) {
                    Some(rest) => Some(seq![atoms[i].spec_copy_with(off, 1, None)] + rest),
                    None => None,
                },
            }
        }
    }
}

proof fn lemma_reg_walk_is_groups<V: Vnode>(atoms: Seq<V>, rs: Seq<Vec<Varnode>>, i: int, acc: Seq<V>)
    ensures
        spec_reg_coalesce_from(atoms, rs, i, acc) == match spec_reg_groups(atoms, rs, i) {
            Some(g) => Some(acc + g),
            None => None,
        },
    decreases atoms.len() - i,
{
    if i < 0 || i >= atoms.len() {
        assert(acc + Seq::<V>::empty() =~= acc);
    } else {
        let off = atoms[i].spec_offset();
        if off >= rs.len() {
        } else if rs[off as int]@.len() == 0 {
            match spec_run_end(atoms, rs, i + 1) {
                None => {},
                Some(e) => {
                    let last = atoms[e - 1].spec_offset();
                    if e <= i || e > atoms.len() || last < off || last - off == u64::MAX {
                    } else {
                        let p = atoms[i].spec_copy_with(off, (last - off + 1) as u32, None);
                        lemma_reg_walk_is_groups(atoms, rs, e, acc.push(p));
                        match spec_reg_groups(atoms, rs, e) {
                            Some(rest) => assert(acc.push(p) + rest =~= acc + (seq![p] + rest)),
                            None => {},
                        }
                    }
                },
            }
        } else {
            let regs = rs[off as int]@;
            match spec_match_reg(atoms, regs, i, 0, None) {
                Some(k) => {
                    let reg = regs[k];
                    if reg.size == 0 || i + reg.size > atoms.len() {
                    } else {
                        let p = atoms[i].spec_copy_with(reg.offset, reg.size, reg.name);
                        lemma_reg_walk_is_groups(atoms, rs, i + reg.size, acc.push(p));
                        match spec_reg_groups(atoms, rs, i + reg.size) {
                            Some(rest) => assert(acc.push(p) + rest =~= acc + (seq![p] + rest)),
                            None => {},
                        }
                    }
                },
                None => {
                    let p = atoms[i].spec_copy_with(off, 1, None);
                    lemma_reg_walk_is_groups(atoms, rs, i + 1, acc.push(p));
                    match spec_reg_groups(atoms, rs, i + 1) {
                        Some(rest) => assert(acc.push(p) + rest =~= acc + (seq![p] + rest)),
                        None => {},
                    }
                },
            }
        }
    }
}

proof fn lemma_run_end<V: Vnode>(atoms: Seq<V>, rs: Seq<Vec<Varnode>>, j: int)
    requires
        1 <= j <= atoms.len(),
    ensures
        spec_run_end(atoms, rs, j) matches Some(e) ==> j <= e <= atoms.len(),
    decreases atoms.len() - j,
{
    if j < atoms.len() {
        let o = atoms[j].spec_offset();
        if o < rs.len() && rs[o as int]@.len() == 0 && atoms[j].spec_is_next(&atoms[j - 1]) {
            lemma_run_end(atoms, rs, j + 1);
        }
    }
}

proof fn lemma_match_reg<V: Vnode>(atoms: Seq<V>, regs: Seq<Varnode>, i: int, k: int, matched: Option<int>)
    requires
        0 <= k,
        matched matches Some(m) ==> 0 <= m < regs.len() && regs[m].size <= atoms.len() - i,
    ensures
        spec_match_reg(atoms, regs, i, k, matched) matches Some(m) ==> 0 <= m < regs.len() && regs[m].size <= atoms.len() - i,
    decreases regs.len() - k,
{
    if 0 <= k < regs.len() {
        let n = regs[k].size as int;
        if n <= atoms.len() - i {
            if spec_contiguous(atoms, i, n) {
                lemma_match_reg(atoms, regs, i, k + 1, Some(k));
            } else {
                lemma_match_reg(atoms, regs, i, k + 1, matched);
            }
        }
    }
}

fn contiguous<V: Vnode>(atoms: &Vec<V>, i: usize, n: usize) -> (r: bool)
    requires
        i + n <= atoms@.len(),
    ensures
        r == spec_contiguous(atoms@, i as int, n as int),
{
    let len = atoms.len();
    let mut j: usize = 1;
    while j < n
        invariant
            1 <= j,
            i + n <= atoms@.len(),
            len == atoms@.len(),
            forall|m: int| 1 <= m < j && m < n ==> #[trigger] atoms@[i + m].spec_is_next(&atoms@[i + m - 1]),
        decreases n - j,
    {
        if !atoms[i + j].is_next(&atoms[i + j - 1]) {
            return false;
        }
        j = j + 1;
    }
    true
}

fn run_end<V: Vnode>(atoms: &Vec<V>, reg_sizes: &Vec<Vec<Varnode>>, j0: usize) -> (r: Option<usize>)
    requires
        1 <= j0 <= atoms@.len(),
    ensures
        match spec_run_end(atoms@, reg_sizes@, j0 as int) {
            Some(e) => r is Some && r.unwrap() as int == e && j0 <= e <= atoms@.len(),
            None => r is None,
        },
{
    let mut j = j0;
    while j < atoms.len()
        invariant
            1 <= j0 <= j <= atoms@.len(),
            spec_run_end(atoms@, reg_sizes@, j0 as int) == spec_run_end(atoms@, reg_sizes@, j as int),
        decreases atoms@.len() - j,
    {
        let o = atoms[j].offset();
        if o >= reg_sizes.len() as u64 {
            return None;
        }
        if reg_sizes[o as usize].len() == 0 && atoms[j].is_next(&atoms[j - 1]) {
            j = j + 1;
        } else {
            return Some(j);
        }
    }
    Some(j)
}

fn match_reg<V: Vnode>(atoms: &Vec<V>, regs: &Vec<Varnode>, i: usize) -> (r: Option<usize>)
    requires
        i < atoms@.len(),
    ensures
        match spec_match_reg(atoms@, regs@, i as int, 0, None) {
            Some(k) => r is Some && r.unwrap() as int == k && k < regs@.len(),
            None => r is None,
        },
{
    let mut matched: Option<usize> = None;
    let mut k: usize = 0;
    while k < regs.len()
        invariant
            k <= regs@.len(),
            i < atoms@.len(),
            matched matches Some(m) ==> m < regs@.len() && regs@[m as int].size <= atoms@.len() - i,
            spec_match_reg(atoms@, regs@, i as int, 0, None) == spec_match_reg(atoms@, regs@, i as int, k as int, match matched {
                Some(m) => Some(m as int),
                None => None,
            }),
        decreases regs@.len() - k,
    {
        let n = regs[k].size as usize;
        if n > atoms.len() - i {
            proof {
                lemma_match_reg(atoms@, regs@, i as int, k as int, match matched {
                    Some(m) => Some(m as int),
                    None => None,
                });
            }
            return matched;
        }
        if contiguous(atoms, i, n) {
            matched = Some(k);
        }
        k = k + 1;
    }
    proof {
        lemma_match_reg(atoms@, regs@, i as int, k as int, match matched {
            Some(m) => Some(m as int),
            None => None,
        });
    }
    matched
}

/// Coalesces register pieces into the registers they make up: at an offset where
/// registers start, the largest register whose pieces all follow one another (named as
/// the register), else one piece; elsewhere a run of consecutive pieces (see
/// `spec_reg_groups`). `None` where a piece lies beyond the register table or a
/// register has no size.
pub fn _coalesce_reg_atoms<V: Vnode>(atoms: &Vec<V>, reg_sizes: &Vec<Vec<Varnode>>) -> (r: Option<Vec<V>>)
    ensures
        match spec_reg_groups(atoms@, reg_sizes@, 0) {
            Some(c) => r is Some && r.unwrap()@ == c,
            None => r is None,
        },
{
    let ghost rs = reg_sizes@;
    proof {
        lemma_reg_walk_is_groups(atoms@, rs, 0, Seq::empty());
        match spec_reg_groups(atoms@, rs, 0) {
            Some(g) => assert(Seq::<V>::empty() + g =~= g),
            None => {},
        }
    }
    let mut comps: Vec<V> = Vec::new();
    let mut i: usize = 0;
    let n = atoms.len();
    while i < n
        invariant
            i <= atoms@.len(),
            n == atoms@.len(),
            rs == reg_sizes@,
            spec_reg_coalesce_from(atoms@, rs, 0, Seq::empty()) == spec_reg_groups(atoms@, rs, 0),
            spec_reg_coalesce_from(atoms@, rs, 0, Seq::empty()) == spec_reg_coalesce_from(atoms@, rs, i as int, comps@),
        decreases atoms@.len() - i,
    {
        let off = atoms[i].offset();
        if off >= reg_sizes.len() as u64 {
            return None;
        }
        if reg_sizes[off as usize].len() == 0 {
            let start_idx = i;
            let j = match run_end(atoms, reg_sizes, i + 1) {
                Some(j) => j,
                None => return None,
            };
            let last_off = atoms[j - 1].offset();
            if last_off < off || last_off - off == u64::MAX {
                return None;
            }
            let comp_size: u32 = #[verifier::truncate] ((last_off - off + 1) as u32);
            comps.push(atoms[start_idx].copy_with(off, comp_size, None));
            i = j;
        } else {
            let regs = &reg_sizes[off as usize];
            match match_reg(atoms, regs, i) {
                Some(k) => {
                    let reg = &regs[k];
                    if reg.size == 0 {
                        return None;
                    }
                    let name = match &reg.name {
                        Some(nm) => Some(nm.clone()),
                        None => None,
                    };
                    comps.push(atoms[i].copy_with(reg.offset, reg.size, name));
                    proof {
                        lemma_match_reg(atoms@, regs@, i as int, 0, None);
                    }
                    i = i + reg.size as usize;
                },
                None => {
                    comps.push(atoms[i].copy_with(off, 1, None));
                    i = i + 1;
                },
            }
        }
    }
    Some(comps)
}

/// The parts of a compound as printed: its constants, its registers, its unique runs and
/// its ram runs, in that order; pieces of other spaces are left out. `None` where the
/// pieces cannot be coalesced.
pub open spec fn spec_coalesce_atoms<V: Vnode>(atoms: Seq<V>, rs: Seq<Vec<Varnode>>) -> Option<Seq<V>> {
    match (
        spec_reg_groups(spec_space_atoms(atoms, AddressSpace::Register), rs, 0),
        spec_coalesce(spec_space_atoms(atoms, AddressSpace::Unique)),
        spec_coalesce(spec_space_atoms(atoms, AddressSpace::Ram)),
    ) {
        (Some(a), Some(b), Some(c)) => Some(spec_space_atoms(atoms, AddressSpace::Const) + a + b + c),
        _ => None,
    }
}

/// The parts of a compound as printed (see `spec_coalesce_atoms`).
pub fn coalesce_atoms<V: Vnode>(atoms: &Vec<V>, reg_sizes: &Vec<Vec<Varnode>>) -> (r: Option<Vec<V>>)
    ensures
        match spec_coalesce_atoms(atoms@, reg_sizes@) {
            Some(c) => r is Some && r.unwrap()@ == c,
            None => r is None,
        },
{
    let mut comps = space_atoms(atoms, &AddressSpace::Const);
    let ghost consts = comps@;
    let regs = match _coalesce_reg_atoms(&space_atoms(atoms, &AddressSpace::Register), reg_sizes) {
        Some(c) => c,
        None => return None,
    };
    let uniques = match _coalesce_atoms(&space_atoms(atoms, &AddressSpace::Unique)) {
        Some(c) => c,
        None => return None,
    };
    let rams = match _coalesce_atoms(&space_atoms(atoms, &AddressSpace::Ram)) {
        Some(c) => c,
        None => return None,
    };
    let mut regs = regs;
    let mut uniques = uniques;
    let mut rams = rams;
    comps.append(&mut regs);
    comps.append(&mut uniques);
    comps.append(&mut rams);
    assert(comps@.subrange(0, consts.len() as int) =~= consts);
    Some(comps)
}

/// The texts of varnodes joined with `:`.
pub open spec fn spec_joined_texts<V: Vnode>(vs: Seq<V>) -> Seq<char> {
    spec_join(vs.map_values(|v: V| v.spec_text()), ":"@)
}

fn push_joined_texts<V: Vnode>(s: &mut String, vs: &Vec<V>)
    ensures
        final(s)@ == old(s)@ + spec_joined_texts(vs@),
{
    let ghost ts = vs@.map_values(|v: V| v.spec_text());
    let mut i: usize = 0;
    assert(ts.subrange(0, 0) =~= Seq::<Seq<char>>::empty());
    assert(old(s)@ + seq![] =~= old(s)@);
    while i < vs.len()
        invariant
            i <= vs@.len(),
            ts == vs@.map_values(|v: V| v.spec_text()),
            s@ == old(s)@ + spec_join(ts.subrange(0, i as int), ":"@),
        decreases vs@.len() - i,
    {
        let ghost prev = ts.subrange(0, i as int);
        assert(ts.subrange(0, i + 1) =~= prev.push(ts[i as int]));
        assert(prev.push(ts[i as int]).drop_last() =~= prev);
        if i > 0 {
            push_str(s, ":");
        } else {
            assert(prev.push(ts[i as int]) =~= seq![ts[i as int]]);
        }
        let t = vs[i].text();
        push_str(s, t.as_str());
        i = i + 1;
    }
    assert(ts.subrange(0, vs@.len() as int) =~= ts);
}

/// The printed form of a compound: a simple one as its varnode, a compound one as its
/// coalesced parts (see `spec_coalesce_atoms`) joined with `:`; `None` where the parts
/// cannot be coalesced.
pub open spec fn spec_compound_text<V: Vnode>(c: GenericCompoundVarnode<V>) -> Option<Seq<char>> {
    match c.comps {
        VarnodeComps::Simple(v) => Some(v.spec_text()),
        VarnodeComps::Complex(vs) => match spec_coalesce_atoms(vs@, (*c.reg_sizes)@) {
            Some(parts) => Some(spec_joined_texts(parts)),
            None => None,
        },
    }
}

/// The byte-sized pieces of the parts `vs`, part after part.
pub open spec fn spec_parts_atoms<V: VarnodeIface>(vs: Seq<V>) -> Seq<V> {
    vs.map_values(|v: V| spec_atoms(v)).flatten()
}

/// The byte-sized pieces of a compound, part after part.
pub open spec fn spec_compound_atoms<V: Vnode>(comps: VarnodeComps<V>) -> Seq<V> {
    match comps {
        VarnodeComps::Simple(v) => spec_atoms(v),
        VarnodeComps::Complex(vs) => spec_parts_atoms(vs@),
    }
}

/// `x` read as a 64-bit signed number (two's complement).
pub open spec fn spec_as_i64(x: u64) -> int {
    if x > i64::MAX { x - 0x1_0000_0000_0000_0000 } else { x as int }
}

/// The overlap test of two simple compounds in one space, in 64-bit signed arithmetic: the
/// smaller end less the larger start, not negative.
pub open spec fn spec_neighbor_gap(o1: u64, s1: u32, o2: u64, s2: u32) -> int {
    let lo = if o1 >= o2 { o1 } else { o2 };
    let e1 = o1 + s1;
    let e2 = o2 + s2;
    let hi = if e1 <= e2 { e1 } else { e2 };
    spec_as_i64(hi as u64) - spec_as_i64(lo)
}

/// Whether the overlap test of two compounds can be computed: for two simple ones in one
/// space, neither end passes 64 bits and the gap fits 64 signed bits.
pub open spec fn spec_neighbors_defined<V: Vnode>(a: VarnodeComps<V>, b: VarnodeComps<V>) -> bool {
    match (a, b) {
        (VarnodeComps::Simple(v1), VarnodeComps::Simple(v2)) => spec_same_space(v1.spec_space(), v2.spec_space()) ==> ({
            &&& v1.spec_offset() + v1.spec_size() <= u64::MAX
            &&& v2.spec_offset() + v2.spec_size() <= u64::MAX
            &&& i64::MIN <= spec_neighbor_gap(v1.spec_offset(), v1.spec_size(), v2.spec_offset(), v2.spec_size()) <= i64::MAX
        }),
        _ => true,
    }
}

/// The sum of the sizes of the parts `vs`.
pub open spec fn spec_sizes_sum<V: VarnodeIface>(vs: Seq<V>) -> int
    decreases vs.len(),
{
    if vs.len() == 0 { 0 } else { spec_sizes_sum(vs.drop_last()) + vs.last().spec_size() }
}

/// What a compound varnode offers: where it is, its pieces and whether it shares one with
/// another.
pub trait CompoundVarnodeIface: Sized {
    spec fn spec_first_offset(&self) -> u64;

    fn offset(&self) -> (r: Option<u64>);

    fn size(&self) -> (r: Option<u32>);

    fn is_const(&self) -> (r: Option<bool>);

    fn addr(&self) -> (r: Option<Address>);

    fn dominates(&self, other: &Self) -> (r: Option<bool>);
}

/// Building compound varnodes from others.
pub trait CompoundVarnodeIface2: Sized {
    fn convert_to_const(&self, val: u64, size: u32) -> (r: Self);
}

/// `Arc::clone`: another pointer to the same register table. Verus sees an `Arc` as the
/// value it points to, so the contract says that the copy equals the pointer it was made from.
#[verifier::external_body]
pub(crate) fn share_table(a: &Arc<Vec<Vec<Varnode>>>) -> (r: Arc<Vec<Vec<Varnode>>>)
    ensures
        r == *a,
{
    Arc::clone(a)
}

/// Whether two compounds' parts agree: both one varnode and the same, or both lists of
/// the same length whose varnodes agree one by one (names compared by characters).
pub open spec fn spec_same_comps<V: Vnode>(a: VarnodeComps<V>, b: VarnodeComps<V>) -> bool {
    match (a, b) {
        (VarnodeComps::Simple(x), VarnodeComps::Simple(y)) => x.spec_same(&y),
        (VarnodeComps::Complex(xs), VarnodeComps::Complex(ys)) => xs@.len() == ys@.len()
            && forall|i: int| 0 <= i < xs@.len() ==> (#[trigger] xs@[i]).spec_same(&ys@[i]),
        _ => false,
    }
}

/// Whether `c` is the form that the parts `parts` take: one part alone, else the list.
pub open spec fn has_parts<V>(c: VarnodeComps<V>, parts: Seq<V>) -> bool {
    if parts.len() == 1 {
        c == VarnodeComps::Simple(parts[0])
    } else {
        c matches VarnodeComps::Complex(vs) && vs@ == parts
    }
}

/// Whether two compounds hold the same parts in the same form, with the same register
/// table.
pub open spec fn same_compound<V>(a: GenericCompoundVarnode<V>, b: GenericCompoundVarnode<V>) -> bool {
    a.reg_sizes == b.reg_sizes && match (a.comps, b.comps) {
        (VarnodeComps::Simple(x), VarnodeComps::Simple(y)) => x == y,
        (VarnodeComps::Complex(xs), VarnodeComps::Complex(ys)) => xs@ == ys@,
        _ => false,
    }
}

/// `x` read as a 64-bit signed number (see `spec_as_i64`).
fn as_i64(x: u64) -> (r: i64)
    ensures
        r == spec_as_i64(x),
{
    if x > i64::MAX as u64 {
        ((x - 0x8000_0000_0000_0000u64) as i64) + i64::MIN
    } else {
        x as i64
    }
}

impl<V: Vnode> GenericCompoundVarnode<V> {
    /// A compound of one varnode.
    pub fn new(vnode: V, reg_sizes: Arc<Vec<Vec<Varnode>>>) -> (r: Self)
        ensures
            r.comps == VarnodeComps::Simple(vnode),
            r.reg_sizes == reg_sizes,
    {
        GenericCompoundVarnode { comps: VarnodeComps::Simple(vnode), reg_sizes }
    }

    /// Whether two compounds have the same parts in the same form (names compared by
    /// characters); the register tables are not compared. Two single varnodes are equal
    /// where the varnodes are.
    pub fn same_as(&self, other: &Self) -> (r: bool)
        ensures
            r == spec_same_comps(self.comps, other.comps),
    {
        match (&self.comps, &other.comps) {
            (VarnodeComps::Simple(v1), VarnodeComps::Simple(v2)) => v1.same(v2),
            (VarnodeComps::Complex(vs1), VarnodeComps::Complex(vs2)) => {
                if vs1.len() != vs2.len() {
                    return false;
                }
                let mut i: usize = 0;
                while i < vs1.len()
                    invariant
                        i <= vs1@.len() == vs2@.len(),
                        self.comps == VarnodeComps::Complex(*vs1),
                        other.comps == VarnodeComps::Complex(*vs2),
                        forall|j: int| 0 <= j < i ==> (#[trigger] vs1@[j]).spec_same(&vs2@[j]),
                    decreases vs1@.len() - i,
                {
                    if !vs1[i].same(&vs2[i]) {
                        return false;
                    }
                    i = i + 1;
                }
                true
            },
            _ => false,
        }
    }

    /// Whether the compound is the stack pointer `sp`: a single part that is it, names
    /// compared by characters.
    pub fn is_sp(&self, sp: &Varnode) -> (r: bool)
        ensures
            r == match self.comps {
                VarnodeComps::Simple(v) => v.spec_vnode().spec_same(sp),
                VarnodeComps::Complex(vs) => vs@.len() == 1 && vs@[0].spec_vnode().spec_same(sp),
            },
    {
        match &self.comps {
            VarnodeComps::Simple(vn) => vn.as_vnode().same(sp),
            VarnodeComps::Complex(vns) => vns.len() == 1 && vns[0].as_vnode().same(sp),
        }
    }

    /// A copy of the compound, sharing its register table.
    pub fn duplicate(&self) -> (r: Self)
        ensures
            same_compound(r, *self),
    {
        let comps = match &self.comps {
            VarnodeComps::Simple(v) => VarnodeComps::Simple(v.duplicate()),
            VarnodeComps::Complex(vs) => {
                let mut out: Vec<V> = Vec::new();
                let mut i: usize = 0;
                while i < vs.len()
                    invariant
                        i <= vs@.len(),
                        out@ == vs@.take(i as int),
                    decreases vs@.len() - i,
                {
                    out.push(vs[i].duplicate());
                    assert(vs@.take(i + 1) =~= vs@.take(i as int).push(vs@[i as int]));
                    i = i + 1;
                }
                assert(vs@.take(vs@.len() as int) =~= vs@);
                VarnodeComps::Complex(out)
            },
        };
        GenericCompoundVarnode { comps, reg_sizes: share_table(&self.reg_sizes) }
    }

    /// The first part of the compound; `None` for a compound without parts.
    pub fn first(&self) -> (r: Option<&V>)
        ensures
            match self.comps {
                VarnodeComps::Simple(v) => r == Some(&v),
                VarnodeComps::Complex(vs) => if vs@.len() > 0 { r == Some(&vs@[0]) } else { r is None },
            },
    {
        match &self.comps {
            VarnodeComps::Simple(v) => Some(v),
            VarnodeComps::Complex(vs) => if vs.len() > 0 {
                Some(&vs[0])
            } else {
                None
            },
        }
    }

    /// The parts of the compound.
    pub fn comps(&self) -> (r: Vec<V>)
        ensures
            match self.comps {
                VarnodeComps::Simple(v) => r@ == seq![v],
                VarnodeComps::Complex(vs) => r@ == vs@,
            },
    {
        match &self.comps {
            VarnodeComps::Simple(v) => {
                let mut r = Vec::new();
                r.push(v.duplicate());
                r
            },
            VarnodeComps::Complex(vs) => {
                let mut r: Vec<V> = Vec::new();
                let mut i: usize = 0;
                while i < vs.len()
                    invariant
                        i <= vs@.len(),
                        r@ == vs@.take(i as int),
                    decreases vs@.len() - i,
                {
                    r.push(vs[i].duplicate());
                    assert(vs@.take(i + 1) =~= vs@.take(i as int).push(vs@[i as int]));
                    i = i + 1;
                }
                assert(vs@.take(vs@.len() as int) =~= vs@);
                r
            },
        }
    }

    /// The byte-sized pieces of the compound, part after part.
    pub fn atoms(&self) -> (r: Vec<V>)
        ensures
            r@ == spec_compound_atoms(self.comps),
    {
        match &self.comps {
            VarnodeComps::Simple(v) => {
                let r = v.atoms();
                assert(r@ =~= spec_atoms(*v));
                r
            },
            VarnodeComps::Complex(vs) => {
                let mut r: Vec<V> = Vec::new();
                let mut i: usize = 0;
                assert(vs@.take(0).map_values(|v: V| spec_atoms(v)) =~= Seq::<Seq<V>>::empty());
                while i < vs.len()
                    invariant
                        i <= vs@.len(),
                        r@ == spec_parts_atoms(vs@.take(i as int)),
                    decreases vs@.len() - i,
                {
                    let mut a = vs[i].atoms();
                    assert(a@ =~= spec_atoms(vs@[i as int]));
                    let ghost before = r@;
                    r.append(&mut a);
                    proof {
                        let pre = vs@.take(i as int).map_values(|v: V| spec_atoms(v));
                        assert(vs@.take(i + 1).map_values(|v: V| spec_atoms(v)) =~= pre.push(spec_atoms(vs@[i as int])));
                        pre.lemma_flatten_push(spec_atoms(vs@[i as int]));
                    }
                    i = i + 1;
                }
                assert(vs@.take(vs@.len() as int) =~= vs@);
                r
            },
        }
    }

    /// Whether two simple compounds in one space overlap or touch (see
    /// `spec_neighbor_gap`); compound ones never do.
    pub fn neighbors(&self, other: &Self) -> (r: bool)
        requires
            spec_neighbors_defined(self.comps, other.comps),
        ensures
            r == match (self.comps, other.comps) {
                (VarnodeComps::Simple(v1), VarnodeComps::Simple(v2)) => spec_same_space(v1.spec_space(), v2.spec_space())
                    && spec_neighbor_gap(v1.spec_offset(), v1.spec_size(), v2.spec_offset(), v2.spec_size()) >= 0,
                _ => false,
            },
    {
        match (&self.comps, &other.comps) {
            (VarnodeComps::Simple(vn1), VarnodeComps::Simple(vn2)) => {
                if !(*vn1.space() == *vn2.space()) {
                    return false;
                }
                let lo: u64 = if vn1.offset() >= vn2.offset() { vn1.offset() } else { vn2.offset() };
                let e1: u64 = vn1.offset() + vn1.size() as u64;
                let e2: u64 = vn2.offset() + vn2.size() as u64;
                let hi: u64 = if e1 <= e2 { e1 } else { e2 };
                let a = as_i64(hi);
                let b = as_i64(lo);
                a - b >= 0
            },
            _ => false,
        }
    }

    /// The printed form of the compound: a simple one as its varnode, a compound one as
    /// its coalesced parts joined with `:`. `None` where the parts cannot be coalesced.
    pub fn text(&self) -> (r: Option<String>)
        ensures
            match spec_compound_text(*self) {
                Some(t) => r is Some && r.unwrap()@ == t,
                None => r is None,
            },
    {
        match &self.comps {
            VarnodeComps::Simple(v) => Some(v.text()),
            VarnodeComps::Complex(vs) => {
                match coalesce_atoms(vs, &*self.reg_sizes) {
                    Some(parts) => {
                        let mut s = String::new();
                        push_joined_texts(&mut s, &parts);
                        Some(s)
                    },
                    None => None,
                }
            },
        }
    }
}

/// The pieces of `s` without repeats, in order of first occurrence (a piece equal to an
/// earlier one, names compared by characters, is left out).
pub open spec fn spec_unique<V: Vnode>(s: Seq<V>) -> Seq<V>
    decreases s.len(),
{
    if s.len() == 0 {
        s
    } else {
        let u = spec_unique(s.drop_last());
        if exists|i: int| 0 <= i < u.len() && (#[trigger] u[i]).spec_same(&s.last()) {
            u
        } else {
            u.push(s.last())
        }
    }
}

/// Whether some piece of `t` equals `x`, names compared by characters.
pub open spec fn spec_has<V: Vnode>(t: Seq<V>, x: V) -> bool {
    exists|j: int| 0 <= j < t.len() && (#[trigger] t[j]).spec_same(&x)
}

/// The pieces of `s` that `t` has too, in order.
pub open spec fn spec_keep_in<V: Vnode>(s: Seq<V>, t: Seq<V>) -> Seq<V>
    decreases s.len(),
{
    if s.len() == 0 {
        s
    } else {
        let k = spec_keep_in(s.drop_last(), t);
        if spec_has(t, s.last()) { k.push(s.last()) } else { k }
    }
}

/// `s` with `x` put after the last pieces whose offset is above its own.
pub open spec fn spec_insert_by_offset<V: Vnode>(s: Seq<V>, x: V) -> Seq<V>
    decreases s.len(),
{
    if s.len() == 0 || s.last().spec_offset() <= x.spec_offset() {
        s.push(x)
    } else {
        spec_insert_by_offset(s.drop_last(), x).push(s.last())
    }
}

/// The pieces sorted by offset, pieces of equal offset kept in their order.
pub open spec fn spec_sort_by_offset<V: Vnode>(s: Seq<V>) -> Seq<V>
    decreases s.len(),
{
    if s.len() == 0 {
        s
    } else {
        spec_insert_by_offset(spec_sort_by_offset(s.drop_last()), s.last())
    }
}

/// The pieces without a piece equal to the one just before it.
pub open spec fn spec_dedup<V: Vnode>(s: Seq<V>) -> Seq<V>
    decreases s.len(),
{
    if s.len() <= 1 {
        s
    } else if s.last().spec_same(&s[s.len() - 2]) {
        spec_dedup(s.drop_last())
    } else {
        spec_dedup(s.drop_last()).push(s.last())
    }
}

fn unique<V: Vnode>(s: &Vec<V>) -> (r: Vec<V>)
    ensures
        r@ == spec_unique(s@),
{
    let mut out: Vec<V> = Vec::new();
    let mut i: usize = 0;
    assert(s@.take(0) =~= Seq::<V>::empty());
    while i < s.len()
        invariant
            i <= s@.len(),
            out@ == spec_unique(s@.take(i as int)),
        decreases s@.len() - i,
    {
        let mut found = false;
        let mut j: usize = 0;
        while j < out.len()
            invariant
                i < s@.len(),
                j <= out@.len(),
                found == exists|q: int| 0 <= q < j && (#[trigger] out@[q]).spec_same(&s@[i as int]),
            decreases out@.len() - j,
        {
            if out[j].same(&s[i]) {
                found = true;
            }
            j = j + 1;
        }
        assert(s@.take(i + 1).drop_last() =~= s@.take(i as int));
        assert(s@.take(i + 1).last() == s@[i as int]);
        if !found {
            out.push(s[i].duplicate());
        }
        i = i + 1;
    }
    assert(s@.take(s@.len() as int) =~= s@);
    out
}

fn has<V: Vnode>(t: &Vec<V>, x: &V) -> (r: bool)
    ensures
        r == spec_has(t@, *x),
{
    let mut j: usize = 0;
    while j < t.len()
        invariant
            j <= t@.len(),
            forall|q: int| 0 <= q < j ==> !(#[trigger] t@[q]).spec_same(x),
        decreases t@.len() - j,
    {
        if t[j].same(x) {
            return true;
        }
        j = j + 1;
    }
    false
}

fn keep_in<V: Vnode>(s: &Vec<V>, t: &Vec<V>) -> (r: Vec<V>)
    ensures
        r@ == spec_keep_in(s@, t@),
{
    let mut out: Vec<V> = Vec::new();
    let mut i: usize = 0;
    assert(s@.take(0) =~= Seq::<V>::empty());
    while i < s.len()
        invariant
            i <= s@.len(),
            out@ == spec_keep_in(s@.take(i as int), t@),
        decreases s@.len() - i,
    {
        assert(s@.take(i + 1).drop_last() =~= s@.take(i as int));
        assert(s@.take(i + 1).last() == s@[i as int]);
        if has(t, &s[i]) {
            out.push(s[i].duplicate());
        }
        i = i + 1;
    }
    assert(s@.take(s@.len() as int) =~= s@);
    out
}

fn insert_by_offset<V: Vnode>(out: &mut Vec<V>, x: V)
    ensures
        final(out)@ == spec_insert_by_offset(old(out)@, x),
{
    let mut tail: Vec<V> = Vec::new();
    loop
        invariant_except_break
            spec_insert_by_offset(old(out)@, x) == spec_insert_by_offset(out@, x) + tail@.reverse(),
        ensures
            spec_insert_by_offset(old(out)@, x) == out@.push(x) + tail@.reverse(),
        decreases out@.len(),
    {
        if out.len() == 0 || out[out.len() - 1].offset() <= x.offset() {
            break;
        }
        let ghost before = out@;
        let ghost tb = tail@;
        let e = out.pop().unwrap();
        assert(before.drop_last() =~= out@);
        tail.push(e);
        assert(tail@.reverse() =~= seq![e] + tb.reverse());
        assert(spec_insert_by_offset(out@, x).push(e) + tb.reverse() =~= spec_insert_by_offset(out@, x) + (seq![e] + tb.reverse()));
    }
    let ghost head = out@.push(x);
    out.push(x);
    let ghost t0 = tail@;
    while tail.len() > 0
        invariant
            spec_insert_by_offset(old(out)@, x) == out@ + tail@.reverse(),
        decreases tail@.len(),
    {
        let ghost before = out@;
        let ghost tb = tail@;
        let e = tail.pop().unwrap();
        assert(tb.reverse() =~= seq![e] + tail@.reverse());
        out.push(e);
        assert(before + tb.reverse() =~= out@ + tail@.reverse());
    }
    assert(out@ + tail@.reverse() =~= out@);
}

fn sort_by_offset<V: Vnode>(s: &Vec<V>) -> (r: Vec<V>)
    ensures
        r@ == spec_sort_by_offset(s@),
{
    let mut out: Vec<V> = Vec::new();
    let mut i: usize = 0;
    assert(s@.take(0) =~= Seq::<V>::empty());
    while i < s.len()
        invariant
            i <= s@.len(),
            out@ == spec_sort_by_offset(s@.take(i as int)),
        decreases s@.len() - i,
    {
        assert(s@.take(i + 1).drop_last() =~= s@.take(i as int));
        assert(s@.take(i + 1).last() == s@[i as int]);
        insert_by_offset(&mut out, s[i].duplicate());
        i = i + 1;
    }
    assert(s@.take(s@.len() as int) =~= s@);
    out
}

fn dedup<V: Vnode>(s: &Vec<V>) -> (r: Vec<V>)
    ensures
        r@ == spec_dedup(s@),
{
    let mut out: Vec<V> = Vec::new();
    let mut i: usize = 0;
    assert(s@.take(0) =~= Seq::<V>::empty());
    while i < s.len()
        invariant
            i <= s@.len(),
            out@ == spec_dedup(s@.take(i as int)),
        decreases s@.len() - i,
    {
        assert(s@.take(i + 1).drop_last() =~= s@.take(i as int));
        assert(s@.take(i + 1).last() == s@[i as int]);
        if i == 0 {
            assert(s@.take(1) =~= seq![s@[0]]);
            out.push(s[0].duplicate());
            assert(out@ =~= s@.take(1));
        } else {
            assert(s@.take(i + 1)[i - 1] == s@[i - 1]);
            if !s[i].same(&s[i - 1]) {
                out.push(s[i].duplicate());
            }
        }
        i = i + 1;
    }
    assert(s@.take(s@.len() as int) =~= s@);
    out
}

/// The pieces of two compounds joined: sorted by offset, repeats next to each other
/// dropped, then coalesced (see `spec_coalesce_atoms`); `None` where they cannot be.
pub open spec fn spec_joined<V: Vnode>(a: Seq<V>, b: Seq<V>, rs: Seq<Vec<Varnode>>) -> Option<Seq<V>> {
    spec_coalesce_atoms(spec_dedup(spec_sort_by_offset(a + b)), rs)
}

/// The pieces of the union of two compounds: each piece once, sorted by offset, coalesced.
pub open spec fn spec_union_parts<V: Vnode>(a: Seq<V>, b: Seq<V>, rs: Seq<Vec<Varnode>>) -> Option<Seq<V>> {
    spec_coalesce_atoms(spec_sort_by_offset(spec_unique(a + b)), rs)
}

/// The pieces of the intersection of two compounds: the pieces of the first that the second
/// has, each once, sorted by offset, coalesced.
pub open spec fn spec_intersection_parts<V: Vnode>(a: Seq<V>, b: Seq<V>, rs: Seq<Vec<Varnode>>) -> Option<Seq<V>> {
    spec_coalesce_atoms(spec_sort_by_offset(spec_keep_in(spec_unique(a), b)), rs)
}

impl<V: Vnode> GenericCompoundVarnode<V> {
    /// A compound of the parts `comps` with this one's register table: a simple one for one
    /// part, else a compound one.
    pub fn copy_with(&self, comps: Vec<V>) -> (r: Self)
        ensures
            has_parts(r.comps, comps@),
            r.reg_sizes == self.reg_sizes,
    {
        let actual = if comps.len() == 1 {
            VarnodeComps::Simple(comps[0].duplicate())
        } else {
            VarnodeComps::Complex(comps)
        };
        GenericCompoundVarnode { comps: actual, reg_sizes: share_table(&self.reg_sizes) }
    }

    fn both_atoms(&self, other: &Self) -> (r: Vec<V>)
        ensures
            r@ == spec_compound_atoms(self.comps) + spec_compound_atoms(other.comps),
    {
        let mut a = self.atoms();
        let mut b = other.atoms();
        a.append(&mut b);
        a
    }

    /// Whether the two compounds share a piece (names compared by characters).
    pub fn intersects(&self, other: &Self) -> (r: bool)
        ensures
            r == exists|i: int| 0 <= i < spec_compound_atoms(self.comps).len()
                && spec_has(spec_compound_atoms(other.comps), #[trigger] spec_compound_atoms(self.comps)[i]),
    {
        let a = self.atoms();
        let b = other.atoms();
        let mut i: usize = 0;
        while i < a.len()
            invariant
                i <= a@.len(),
                a@ == spec_compound_atoms(self.comps),
                b@ == spec_compound_atoms(other.comps),
                forall|q: int| 0 <= q < i ==> !spec_has(b@, #[trigger] a@[q]),
            decreases a@.len() - i,
        {
            if has(&b, &a[i]) {
                return true;
            }
            i = i + 1;
        }
        false
    }

    /// The two compounds joined (see `spec_joined`), with this one's register table; `None`
    /// where the pieces cannot be coalesced.
    pub fn join_with(&self, other: &Self) -> (r: Option<Self>)
        ensures
            match spec_joined(spec_compound_atoms(self.comps), spec_compound_atoms(other.comps), (*self.reg_sizes)@) {
                Some(c) => r is Some && r.unwrap().reg_sizes == self.reg_sizes && has_parts(r.unwrap().comps, c),
                None => r is None,
            },
    {
        let all = self.both_atoms(other);
        let sorted = sort_by_offset(&all);
        let d = dedup(&sorted);
        match coalesce_atoms(&d, &*self.reg_sizes) {
            Some(c) => Some(self.copy_with(c)),
            None => None,
        }
    }

    /// The union of the two compounds' pieces (see `spec_union_parts`), with this one's
    /// register table; `None` where the pieces cannot be coalesced.
    pub fn union_with(&self, other: &Self) -> (r: Option<Self>)
        ensures
            match spec_union_parts(spec_compound_atoms(self.comps), spec_compound_atoms(other.comps), (*self.reg_sizes)@) {
                Some(c) => r is Some && r.unwrap().reg_sizes == self.reg_sizes && has_parts(r.unwrap().comps, c),
                None => r is None,
            },
    {
        let all = self.both_atoms(other);
        let u = unique(&all);
        let sorted = sort_by_offset(&u);
        match coalesce_atoms(&sorted, &*self.reg_sizes) {
            Some(c) => Some(self.copy_with(c)),
            None => None,
        }
    }

    /// The intersection of the two compounds' pieces (see `spec_intersection_parts`), with
    /// this one's register table; `None` where the pieces cannot be coalesced.
    pub fn intersection_with(&self, other: &Self) -> (r: Option<Self>)
        ensures
            match spec_intersection_parts(spec_compound_atoms(self.comps), spec_compound_atoms(other.comps), (*self.reg_sizes)@) {
                Some(c) => r is Some && r.unwrap().reg_sizes == self.reg_sizes && has_parts(r.unwrap().comps, c),
                None => r is None,
            },
    {
        let a = self.atoms();
        let b = other.atoms();
        let u = unique(&a);
        let k = keep_in(&u, &b);
        let sorted = sort_by_offset(&k);
        match coalesce_atoms(&sorted, &*self.reg_sizes) {
            Some(c) => Some(self.copy_with(c)),
            None => None,
        }
    }
}

/// The first part of a compound, if it has one.
pub open spec fn spec_first_part<V>(comps: VarnodeComps<V>) -> Option<V> {
    match comps {
        VarnodeComps::Simple(v) => Some(v),
        VarnodeComps::Complex(vs) => if vs@.len() > 0 { Some(vs@[0]) } else { None },
    }
}

impl<V: Vnode> CompoundVarnodeIface for GenericCompoundVarnode<V> {
    open spec fn spec_first_offset(&self) -> u64 {
        match self.comps {
            VarnodeComps::Simple(v) => v.spec_offset(),
            VarnodeComps::Complex(vs) => vs@[0].spec_offset(),
        }
    }

    /// The offset of the first part; `None` for a compound without parts.
    fn offset(&self) -> (r: Option<u64>)
        ensures
            r == match spec_first_part(self.comps) { Some(v) => Some(v.spec_offset()), None => None },
    {
        match self.first() {
            Some(v) => Some(v.offset()),
            None => None,
        }
    }

    /// The total size of the parts; `None` where it does not fit 32 bits.
    fn size(&self) -> (r: Option<u32>)
        ensures
            r == match self.comps {
                VarnodeComps::Simple(v) => Some(v.spec_size()),
                VarnodeComps::Complex(vs) => if spec_sizes_sum(vs@) <= u32::MAX { Some(spec_sizes_sum(vs@) as u32) } else { None },
            },
    {
        match &self.comps {
            VarnodeComps::Simple(v) => Some(v.size()),
            VarnodeComps::Complex(vs) => {
                let mut total: u32 = 0;
                let mut i: usize = 0;
                assert(vs@.take(0) =~= Seq::<V>::empty());
                while i < vs.len()
                    invariant
                        i <= vs@.len(),
                        self.comps == VarnodeComps::Complex(*vs),
                        total == spec_sizes_sum(vs@.take(i as int)),
                    decreases vs@.len() - i,
                {
                    let s = vs[i].size();
                    assert(vs@.take(i + 1).drop_last() =~= vs@.take(i as int));
                    assert(vs@.take(i + 1).last() == vs@[i as int]);
                    assert(spec_sizes_sum(vs@.take(i + 1)) == total + s);
                    if total > u32::MAX - s {
                        proof {
                            lemma_sizes_sum_prefix(vs@, i + 1);
                        }
                        return None;
                    }
                    total = total + s;
                    i = i + 1;
                }
                assert(vs@.take(vs@.len() as int) =~= vs@);
                Some(total)
            },
        }
    }

    /// Whether the first part is a constant; `None` for a compound without parts.
    fn is_const(&self) -> (r: Option<bool>)
        ensures
            r == match spec_first_part(self.comps) { Some(v) => Some(v.spec_space() is Const), None => None },
    {
        match self.first() {
            Some(v) => Some(v.is_const()),
            None => None,
        }
    }

    /// The address of a compound whose first part is in ram.
    fn addr(&self) -> (r: Option<Address>)
        ensures
            r == match spec_first_part(self.comps) {
                Some(v) => if v.spec_space() is Ram { Some(Address { space: v.spec_space(), offset: v.spec_offset() }) } else { None },
                None => None,
            },
    {
        match self.first() {
            Some(v) => if v.is_ram() {
                Some(Address { space: clone_space(v.space()), offset: v.offset() })
            } else {
                None
            },
            None => None,
        }
    }

    /// Whether the other compound is a constant (which this one dominates).
    fn dominates(&self, other: &Self) -> (r: Option<bool>)
        ensures
            r == match spec_first_part(other.comps) { Some(v) => Some(v.spec_space() is Const), None => None },
    {
        other.is_const()
    }
}

proof fn lemma_sizes_sum_prefix<V: VarnodeIface>(vs: Seq<V>, k: int)
    requires
        0 <= k <= vs.len(),
        spec_sizes_sum(vs.take(k)) > u32::MAX,
    ensures
        spec_sizes_sum(vs) > u32::MAX,
    decreases vs.len() - k,
{
    if k < vs.len() {
        assert(vs.take(k + 1).drop_last() =~= vs.take(k));
        lemma_sizes_sum_prefix(vs, k + 1);
    } else {
        assert(vs.take(k) =~= vs);
    }
}

impl CompoundVarnodeIface2 for CompoundVarnode {
    /// A constant compound (of a varnode without a name) with the same register table.
    fn convert_to_const(&self, val: u64, size: u32) -> (r: Self)
        ensures
            r.comps == VarnodeComps::Simple(Varnode { name: None, space: AddressSpace::Const, offset: val, size }),
            r.reg_sizes == self.reg_sizes,
    {
        let vnode = Varnode { name: None, space: AddressSpace::Const, offset: val, size };
        GenericCompoundVarnode { comps: VarnodeComps::Simple(vnode), reg_sizes: share_table(&self.reg_sizes) }
    }
}

} // verus!
