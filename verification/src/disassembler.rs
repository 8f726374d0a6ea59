//! Decoding instructions one after another: the default context, one instruction at an
//! address, and a walk over a buffer of code.
use vstd::prelude::*;
use bitvec::vec::BitVec;
use bitvec::order::Msb0;
use bitvec::field::BitField;
use crate::sleigh::address::{Address, AddressSpace};
use crate::sleigh::instruction::Instruction;
use crate::sla_parser::{SleighLanguage, VarnodeSym, Context, Symbol, SymbolBody, get_symbol};
use crate::symbol_resolver::{resolve_symbol, spec_resolve_sym, spec_fix_view, view_matched, MatchedView, MatchedSymbol};
use crate::pcode_builder::{build_sym, build_text, spec_pcode_of, spec_sym_text, same_ops_parts, spec_no_text, lemma_no_text};
use crate::sleigh::op::PcodeOp;
use crate::text::str_eq;

verus! {

/// The register space as a bit vector (`BitVec<u8, Msb0>`), bit 0 first.
#[verifier::external_body]
pub struct RegSpace {
    bits: BitVec<u8, Msb0>,
}

/// The bits a register-space bit vector holds, in order.
pub uninterp spec fn reg_bits(v: RegSpace) -> Seq<bool>;

/// The most bits a bit vector can hold (`BitSlice::MAX_BITS`).
pub open spec fn max_bits() -> nat {
    (usize::MAX / 8) as nat
}

/// The number that bits written most significant first denote.
pub open spec fn spec_bits_value(bs: Seq<bool>) -> nat
    decreases bs.len(),
{
    if bs.len() == 0 {
        0
    } else {
        2 * spec_bits_value(bs.drop_last()) + if bs.last() { 1nat } else { 0nat }
    }
}

/// The low `n` bits of `v`, most significant first.
pub open spec fn spec_bits_of(v: nat, n: nat) -> Seq<bool>
    decreases n,
{
    if n == 0 {
        Seq::empty()
    } else {
        spec_bits_of(v / 2, (n - 1) as nat).push(v % 2 == 1)
    }
}

/// An empty bit vector (`BitVec::with_capacity`), which panics above `MAX_BITS`.
#[verifier::external_body]
fn bv_with_capacity(cap: usize) -> (r: RegSpace)
    requires
        cap <= max_bits(),
    ensures
        reg_bits(r) == Seq::<bool>::empty(),
{
    RegSpace { bits: BitVec::with_capacity(cap) }
}

/// Appends a bit (`BitVec::push`), which panics past `MAX_BITS`.
#[verifier::external_body]
fn bv_push(v: &mut RegSpace, b: bool)
    requires
        reg_bits(*old(v)).len() + 1 <= max_bits(),
    ensures
        reg_bits(*final(v)) == reg_bits(*old(v)).push(b),
{
    v.bits.push(b);
}

/// The bits `start..end` read as a big-endian number (`BitField::load_be::<u32>` on an
/// `Msb0` slice: the first bit is the most significant); 1 to 32 bits.
#[verifier::external_body]
fn bv_load_be(v: &RegSpace, start: usize, end: usize) -> (r: u32)
    requires
        start < end <= reg_bits(*v).len(),
        end - start <= 32,
    ensures
        r as nat == spec_bits_value(reg_bits(*v).subrange(start as int, end as int)),
{
    v.bits[start..end].load_be::<u32>()
}

/// Writes the low `end - start` bits of `value` into bits `start..end`, most significant
/// first (`BitField::store_be::<u32>` on an `Msb0` slice); 1 to 32 bits.
#[verifier::external_body]
fn bv_store_be(v: &mut RegSpace, start: usize, end: usize, value: u32)
    requires
        start < end <= reg_bits(*old(v)).len(),
        end - start <= 32,
    ensures
        reg_bits(*final(v)) == reg_bits(*old(v)).subrange(0, start as int) + spec_bits_of(
            value as nat,
            (end - start) as nat,
        ) + reg_bits(*old(v)).subrange(end as int, reg_bits(*old(v)).len() as int),
{
    v.bits[start..end].store_be::<u32>(value);
}

proof fn lemma_bits_of_len(v: nat, n: nat)
    ensures
        spec_bits_of(v, n).len() == n,
    decreases n,
{
    if n > 0 {
        lemma_bits_of_len(v / 2, (n - 1) as nat);
    }
}

/// The 32-bit words of `n` words of bits from bit `off` on; `None` where they run past the
/// end of the bits.
pub open spec fn spec_reg_words(bits: Seq<bool>, off: int, n: nat) -> Option<Seq<u32>>
    decreases n,
{
    if n == 0 {
        Some(Seq::empty())
    } else {
        match spec_reg_words(bits, off, (n - 1) as nat) {
            None => None,
            Some(ws) => {
                let s = off + 32 * (n - 1);
                if 0 <= s && s + 32 <= bits.len() {
                    Some(ws.push(spec_bits_value(bits.subrange(s, s + 32)) as u32))
                } else {
                    None
                }
            },
        }
    }
}

/// The words of a register in the register space: `ceil(size * 8 / 32)` words from bit
/// `offset * 8` on.
pub open spec fn spec_read_reg(reg: VarnodeSym, bits: Seq<bool>) -> Option<Seq<u32>> {
    if reg.size * 8 > u64::MAX || reg.offset * 8 > usize::MAX {
        None
    } else {
        spec_reg_words(bits, reg.offset * 8, ((reg.size * 8 + 31) / 32) as nat)
    }
}

/// Reads a register out of the register space as 32-bit words (see `spec_read_reg`).
pub fn read_reg(reg: &VarnodeSym, reg_space: &RegSpace) -> (r: Option<Vec<u32>>)
    ensures
        match spec_read_reg(*reg, reg_bits(*reg_space)) {
            Some(ws) => r is Some && r.unwrap()@ == ws,
            None => r is None,
        },
{
    if reg.size > u64::MAX / 8 || reg.offset > (usize::MAX / 8) as u64 {
        return None;
    }
    let ghost bits = reg_bits(*reg_space);
    let ghost n = ((reg.size * 8 + 31) / 32) as nat;
    let len = bv_len(reg_space);
    let base: usize = (reg.offset as usize) * 8;
    let mut words: Vec<u32> = Vec::new();
    let mut size_left: u64 = reg.size * 8;
    while size_left > 0
        invariant
            bits == reg_bits(*reg_space),
            len == bits.len(),
            base == reg.offset * 8,
            n == ((reg.size * 8 + 31) / 32) as nat,
            words@.len() <= n,
            size_left + 32 * words@.len() >= reg.size * 8,
            size_left == 0 ==> words@.len() == n,
            size_left > 0 ==> size_left + 32 * words@.len() == reg.size * 8,
            spec_reg_words(bits, base as int, words@.len() as nat) == Some(words@),
        decreases size_left,
    {
        let k = words.len();
        if k > (usize::MAX - base) / 32 || base + k * 32 > usize::MAX - 32 {
            return None;
        }
        let start = base + k * 32;
        let end = start + 32;
        if end > len {
            proof {
                assert(spec_reg_words(bits, base as int, (k + 1) as nat) is None);
                lemma_reg_words_none(bits, base as int, (k + 1) as nat, n);
            }
            return None;
        }
        let w = bv_load_be(reg_space, start, end);
        words.push(w);
        if size_left > 32 {
            size_left = size_left - 32;
        } else {
            size_left = 0;
        }
    }
    Some(words)
}

proof fn lemma_reg_words_none(bits: Seq<bool>, off: int, k: nat, n: nat)
    requires
        k <= n,
        spec_reg_words(bits, off, k) is None,
    ensures
        spec_reg_words(bits, off, n) is None,
    decreases n - k,
{
    if k < n {
        lemma_reg_words_none(bits, off, k + 1, n);
    }
}

/// The number of bits held (`BitVec::len`).
#[verifier::external_body]
fn bv_len(v: &RegSpace) -> (r: usize)
    ensures
        r == reg_bits(*v).len(),
{
    v.bits.len()
}

/// The context variable named `name`, from the latest entry that names it.
pub open spec fn spec_context_sym(entries: Seq<(String, Context)>, name: Seq<char>) -> Option<Context>
    decreases entries.len(),
{
    if entries.len() == 0 {
        None
    } else if entries.last().0@ == name {
        Some(entries.last().1)
    } else {
        spec_context_sym(entries.drop_last(), name)
    }
}

fn context_sym<'a>(entries: &'a Vec<(String, Context)>, name: &String) -> (r: Option<&'a Context>)
    ensures
        match spec_context_sym(entries@, name@) {
            Some(c) => r is Some && *r.unwrap() == c,
            None => r is None,
        },
{
    let mut i = entries.len();
    assert(entries@.take(i as int) =~= entries@);
    while i > 0
        invariant
            i <= entries@.len(),
            spec_context_sym(entries@, name@) == spec_context_sym(entries@.take(i as int), name@),
        decreases i,
    {
        assert(entries@.take(i as int).drop_last() =~= entries@.take(i - 1));
        if str_eq(entries[i - 1].0.as_str(), name.as_str()) {
            return Some(&entries[i - 1].1);
        }
        i = i - 1;
    }
    None
}

/// The bit range `start..end` of a context variable within the register space; `None`
/// where it is empty, wider than 32 bits or past `len` bits.
pub open spec fn spec_ctx_range(ctx_reg: VarnodeSym, sym: Context, len: nat) -> Option<(int, int)> {
    let s = ctx_reg.offset * 8 + sym.low;
    let e = ctx_reg.offset * 8 + sym.high + 1;
    if e > usize::MAX || s >= e || e - s > 32 || e > len {
        None
    } else {
        Some((s, e))
    }
}

/// The register space after the default context values from position `i` on have been
/// or-ed into their variables' bits.
pub open spec fn spec_apply_defaults(bits: Seq<bool>, lang: SleighLanguage, i: int) -> Option<Seq<bool>>
    decreases lang.language.pspec.defaults@.len() - i,
{
    let defaults = lang.language.pspec.defaults@;
    if i < 0 || i >= defaults.len() {
        Some(bits)
    } else {
        match spec_context_sym(lang.context_syms@, defaults[i].0@) {
            None => spec_apply_defaults(bits, lang, i + 1),
            Some(sym) => match spec_ctx_range(lang.context_reg, sym, bits.len()) {
                None => None,
                Some((s, e)) => {
                    let existing = spec_bits_value(bits.subrange(s, e)) as u32;
                    let nb = bits.subrange(0, s) + spec_bits_of((defaults[i].1 | existing) as nat, (e - s) as nat) + bits.subrange(e, bits.len() as int);
                    spec_apply_defaults(nb, lang, i + 1)
                },
            },
        }
    }
}

/// The default context words of a language: the context register read from a register
/// space that is all zeros but for the processor's default context values.
pub open spec fn spec_default_context(lang: SleighLanguage) -> Option<Seq<u32>> {
    if lang.reg_space_size * 8 > max_bits() {
        None
    } else {
        match spec_apply_defaults(Seq::new((lang.reg_space_size * 8) as nat, |k: int| false), lang, 0) {
            None => None,
            Some(bits) => spec_read_reg(lang.context_reg, bits),
        }
    }
}

/// Decodes instructions of one language.
pub struct Disassembler {
    pub language_id: String,
    pub compiler_id: String,
    pub lang: SleighLanguage,
    pub default_ctx_reg: Vec<u32>,
    pub num: Option<u64>,
}

/// The default context words of a language (see `spec_default_context`).
pub fn default_context(lang: &SleighLanguage) -> (r: Option<Vec<u32>>)
    ensures
        match spec_default_context(*lang) {
            Some(ws) => r is Some && r.unwrap()@ == ws,
            None => r is None,
        },
{
    if lang.reg_space_size > usize::MAX / 8 || lang.reg_space_size * 8 > usize::MAX / 8 {
        return None;
    }
    let nbits = lang.reg_space_size * 8;
    let mut reg_space = bv_with_capacity(nbits);
    let mut k: usize = 0;
    while k < nbits
        invariant
            k <= nbits <= max_bits(),
            reg_bits(reg_space) == Seq::new(k as nat, |j: int| false),
        decreases nbits - k,
    {
        bv_push(&mut reg_space, false);
        assert(Seq::new(k as nat, |j: int| false).push(false) =~= Seq::new((k + 1) as nat, |j: int| false));
        k = k + 1;
    }
    let ghost zero = reg_bits(reg_space);
    assert(zero == Seq::new((lang.reg_space_size * 8) as nat, |j: int| false));
    let defaults = &lang.language.pspec.defaults;
    let mut i: usize = 0;
    while i < defaults.len()
        invariant
            i <= defaults@.len(),
            *defaults == lang.language.pspec.defaults,
            nbits == lang.reg_space_size * 8,
            reg_bits(reg_space).len() == nbits,
            spec_apply_defaults(zero, *lang, 0) == spec_apply_defaults(reg_bits(reg_space), *lang, i as int),
            zero == Seq::new((lang.reg_space_size * 8) as nat, |j: int| false),
            lang.reg_space_size * 8 <= max_bits(),
        decreases defaults@.len() - i,
    {
        let (var, val) = &defaults[i];
        match context_sym(&lang.context_syms, var) {
            None => {},
            Some(sym) => {
                let off = lang.context_reg.offset;
                let top: u64 = if sym.high >= sym.low { sym.high as u64 } else { sym.low as u64 };
                if off > (u64::MAX - 1 - top) / 8 {
                    assert(spec_ctx_range(lang.context_reg, *sym, nbits as nat) is None);
                    assert(spec_apply_defaults(reg_bits(reg_space), *lang, i as int) is None);
                    return None;
                }
                let s64 = off * 8 + sym.low as u64;
                let e64 = off * 8 + sym.high as u64 + 1;
                if e64 > usize::MAX as u64 || s64 >= e64 || e64 - s64 > 32 || e64 > nbits as u64 {
                    assert(spec_ctx_range(lang.context_reg, *sym, nbits as nat) is None);
                    assert(spec_apply_defaults(reg_bits(reg_space), *lang, i as int) is None);
                    return None;
                }
                let start = s64 as usize;
                let end = e64 as usize;
                let existing = bv_load_be(&reg_space, start, end);
                proof {
                    lemma_bits_of_len((*val | existing) as nat, (end - start) as nat);
                }
                bv_store_be(&mut reg_space, start, end, *val | existing);
            },
        }
        i = i + 1;
    }
    read_reg(&lang.context_reg, &reg_space)
}

impl Disassembler {
    /// A disassembler for a language that has been read, with its default context; `None`
    /// where the default context cannot be computed.
    pub fn from_language(language_id: String, compiler_id: String, num: Option<u64>, lang: SleighLanguage) -> (r: Option<Disassembler>)
        ensures
            match spec_default_context(lang) {
                Some(ws) => r is Some && r.unwrap().default_ctx_reg@ == ws && r.unwrap().lang == lang && r.unwrap().num == num,
                None => r is None,
            },
    {
        match default_context(&lang) {
            Some(default_ctx_reg) => Some(Disassembler { language_id, compiler_id, lang, default_ctx_reg, num }),
            None => None,
        }
    }
}

fn clone_words(v: &Vec<u32>) -> (r: Vec<u32>)
    ensures
        r@ == v@,
{
    let r = v.clone();
    assert(r@ =~= v@);
    r
}

/// The bit length rounded as the decoder rounds it to the language's alignment: a length
/// that is not a multiple of `align` grows by itself less its remainder.
pub open spec fn spec_aligned_bits(num_bits: int, align: int) -> int {
    if num_bits % align != 0 {
        num_bits + (num_bits - num_bits % align)
    } else {
        num_bits
    }
}

/// The bit length as the decoder rounds it (see `spec_aligned_bits`); `None` for an
/// alignment of 0 or a length past `usize::MAX`.
pub open spec fn spec_aligned_len(bits: usize, align: usize) -> Option<usize> {
    if align == 0 || spec_aligned_bits(bits as int, align as int) > usize::MAX {
        None
    } else {
        Some(spec_aligned_bits(bits as int, align as int) as usize)
    }
}

/// What the instruction table resolves to at the start of `data` (at address `pc`, in
/// context `ctx`): the resolved value with its literals made absolute, its length in bits
/// and the context after it (see `spec_resolve_sym`).
pub open spec fn spec_insn_resolve(lang: SleighLanguage, data: Seq<u8>, pc: u64, ctx: Seq<u32>) -> Option<(MatchedView, usize, Seq<u32>)> {
    if !lang.symbols@.contains_key(lang.insn_table_id) {
        None
    } else {
        match spec_resolve_sym(data, pc, lang.symbols@[lang.insn_table_id], lang, ctx, 0) {
            (Some((m, b)), c) => Some((spec_fix_view(m, None, pc, b), b, c)),
            (None, _) => None,
        }
    }
}

/// The context after decoding the start of `data` at `pc` in context `ctx`: the context
/// that resolving the instruction table leaves (see `spec_resolve_sym`), resolved or not;
/// `ctx` itself where the language has no instruction table.
pub open spec fn spec_insn_ctx(lang: SleighLanguage, data: Seq<u8>, pc: u64, ctx: Seq<u32>) -> Seq<u32> {
    if !lang.symbols@.contains_key(lang.insn_table_id) {
        ctx
    } else {
        spec_resolve_sym(data, pc, lang.symbols@[lang.insn_table_id], lang, ctx, 0).1
    }
}

/// Whether `r` is the instruction that the resolved symbol `ms` builds at `pc` with `nb`
/// bits (the literals relative to it named `fx`): its ops (see `spec_pcode_of`), its
/// assembly text over those ops (see `spec_sym_text`) and its length in bytes. `None` where
/// either cannot be built.
pub open spec fn spec_insn_built<'a>(ms: MatchedSymbol<'a>, pc: Address, nb: usize, lang: SleighLanguage, fx: (String, String), r: Option<Instruction>) -> bool {
    match spec_pcode_of(ms, pc, nb, lang, fx) {
        None => r is None,
        Some(ps) => match r {
            Some(insn) => insn.address == pc && insn.length == (nb / 8) as u64 && same_ops_parts(insn.ops@, ps)
                && spec_sym_text(ms, insn.ops@) == Some(insn.assembly@),
            None => spec_no_text(ms, ps),
        },
    }
}

/// Whether `r` is what decoding the start of `data` at `pc` in context `ctx` gives: nothing
/// where the instruction table does not resolve (see `spec_insn_resolve`) or its length
/// cannot be aligned, else the instruction a symbol with the resolved value builds (see
/// `spec_insn_built`), the literals relative to it named `fixup_start` and `fixup_end`.
pub open spec fn spec_decoded(lang: SleighLanguage, data: Seq<u8>, pc: Address, ctx: Seq<u32>, r: Option<Instruction>) -> bool {
    match spec_insn_resolve(lang, data, pc.offset, ctx) {
        None => r is None,
        Some((m, bits, _)) => match spec_aligned_len(bits, lang.bit_align) {
            None => r is None,
            Some(nb) => exists|ms: MatchedSymbol, fx: (String, String)|
                view_matched(ms) == m && fx.0@ == "fixup_start"@ && fx.1@ == "fixup_end"@
                && #[trigger] spec_insn_built(ms, pc, nb, lang, fx, r),
        },
    }
}

/// Builds the instruction a resolved symbol gives at `pc` with `nb` bits: its ops and its
/// assembly text over them (see `spec_insn_built`).
fn build_insn<'a>(ms: &MatchedSymbol<'a>, pc: Address, nb: usize, lang: &SleighLanguage) -> (r: Option<Instruction>)
    ensures
        exists|fx: (String, String)| fx.0@ == "fixup_start"@ && fx.1@ == "fixup_end"@
            && #[trigger] spec_insn_built(*ms, pc, nb, *lang, fx, r),
{
    let ops = match build_sym(ms, &pc, nb, lang) {
        Some(o) => o,
        None => {
            proof {
                let fx = choose|fx: (String, String)| fx.0@ == "fixup_start"@ && fx.1@ == "fixup_end"@ && match #[trigger] spec_pcode_of(*ms, pc, nb, *lang, fx) {
                    Some(ps) => false,
                    None => true,
                };
                assert(spec_insn_built(*ms, pc, nb, *lang, fx, None));
            }
            return None;
        },
    };
    let ghost fx = choose|fx: (String, String)| fx.0@ == "fixup_start"@ && fx.1@ == "fixup_end"@ && match #[trigger] spec_pcode_of(*ms, pc, nb, *lang, fx) {
        Some(ps) => same_ops_parts(ops@, ps),
        None => false,
    };
    let assembly = match build_text(ms, ops.as_slice()) {
        Some(t) => t,
        None => {
            proof {
                lemma_no_text(*ms, ops@, spec_pcode_of(*ms, pc, nb, *lang, fx).unwrap());
                assert(spec_insn_built(*ms, pc, nb, *lang, fx, None));
            }
            return None;
        },
    };
    let r = Instruction { address: pc, length: (nb / 8) as u64, assembly, ops };
    proof {
        assert(spec_insn_built(*ms, pc, nb, *lang, fx, Some(r)));
    }
    Some(r)
}

/// The part of a code section that lifting covers. The section lies at address `addr`,
/// `size` bytes long, at offset `off` of the file; `start_addr` is the address to start
/// at, `u64::MAX` for none. Without a start address the whole section is covered; a section
/// that does not hold the start address is skipped (`None`); the section that holds it is
/// covered from there on. Gives the file range, the address of its first byte, and the
/// start address for the sections after it (the end of that range, where it was used).
pub open spec fn spec_section_window(addr: u64, size: u64, off: u64, start_addr: u64) -> Option<(u64, u64, u64, u64)> {
    if start_addr == u64::MAX {
        Some((off, (off + size) as u64, addr, start_addr))
    } else if start_addr < addr || start_addr >= addr + size {
        None
    } else {
        let delta = (start_addr - addr) as u64;
        Some(((off + delta) as u64, (off + size) as u64, start_addr, (start_addr + size) as u64))
    }
}

/// The part of a code section that lifting covers (see `spec_section_window`).
pub fn section_window(addr: u64, size: u64, off: u64, start_addr: u64) -> (r: Option<(u64, u64, u64, u64)>)
    requires
        addr + size <= u64::MAX,
        off + size <= u64::MAX,
        start_addr != u64::MAX && addr <= start_addr < addr + size ==> start_addr + size <= u64::MAX,
    ensures
        r == spec_section_window(addr, size, off, start_addr),
{
    if start_addr == u64::MAX {
        Some((off, off + size, addr, start_addr))
    } else if start_addr < addr || start_addr >= addr + size {
        None
    } else {
        let delta = start_addr - addr;
        Some((off + delta, off + size, start_addr, start_addr + size))
    }
}

/// Whether lifting stops after an instruction at `insn_addr`: once more than `max_insns`
/// instructions were lifted, or at or past the end address `end_addr` (`u64::MAX` for none).
pub fn past_window(num_insns: u64, max_insns: u64, end_addr: u64, insn_addr: u64) -> (r: bool)
    ensures
        r == (num_insns > max_insns || (end_addr != u64::MAX && insn_addr >= end_addr)),
{
    num_insns > max_insns || (end_addr != u64::MAX && insn_addr >= end_addr)
}

impl Disassembler {
    /// Decodes the instruction at the start of `data`, at address `pc`, in context `ctx`
    /// (which the constructors' context changes update). `None` where no constructor of
    /// the instruction table matches or the instruction cannot be built.
    pub fn _disassemble_one(&self, data: &[u8], pc: Address, ctx: &mut Vec<u32>) -> (r: Option<Instruction>)
        ensures
            final(ctx)@.len() == old(ctx)@.len(),
            final(ctx)@ == spec_insn_ctx(self.lang, data@, pc.offset, old(ctx)@),
            spec_decoded(self.lang, data@, pc, old(ctx)@, r),
    {
        let sym = match get_symbol(&self.lang, self.lang.insn_table_id) {
            Some(s) => s,
            None => return None,
        };
        let (matched_symbol, bits) = match resolve_symbol(data, pc.offset, sym, &self.lang, ctx) {
            Some(x) => x,
            None => return None,
        };
        let align = self.lang.bit_align;
        if align == 0 {
            return None;
        }
        let mut num_bits = bits;
        if num_bits % align != 0 {
            assert(num_bits % align <= num_bits) by (nonlinear_arith)
                requires
                    align > 0,
            ;
            let extra = num_bits - (num_bits % align);
            if num_bits > usize::MAX - extra {
                return None;
            }
            num_bits = num_bits + extra;
        }
        let r = build_insn(&matched_symbol, pc, num_bits, &self.lang);
        proof {
            let fx = choose|fx: (String, String)| fx.0@ == "fixup_start"@ && fx.1@ == "fixup_end"@
                && #[trigger] spec_insn_built(matched_symbol, pc, num_bits, self.lang, fx, r);
            assert(spec_insn_built(matched_symbol, pc, num_bits, self.lang, fx, r));
            assert(spec_insn_resolve(self.lang, data@, pc.offset, old(ctx)@) == Some((view_matched(matched_symbol), bits, ctx@)));
            assert(spec_aligned_len(bits, self.lang.bit_align) == Some(num_bits));
            let res = spec_insn_resolve(self.lang, data@, pc.offset, old(ctx)@);
            let m = res.unwrap().0;
            let b = res.unwrap().1;
            let nb = spec_aligned_len(b, self.lang.bit_align).unwrap();
            assert(m == view_matched(matched_symbol));
            assert(nb == num_bits);
            assert(spec_insn_built(matched_symbol, pc, nb, self.lang, fx, r));
            assert(exists|ms: MatchedSymbol, f: (String, String)|
                view_matched(ms) == m && f.0@ == "fixup_start"@ && f.1@ == "fixup_end"@
                && #[trigger] spec_insn_built(ms, pc, nb, self.lang, f, r));
        }
        r
    }

    /// Decodes the instruction at the start of `data` at address `pc` in the default
    /// context.
    pub fn disassemble_one(&self, data: &[u8], pc: Address) -> (r: Option<Instruction>)
        ensures
            spec_decoded(self.lang, data@, pc, self.default_ctx_reg@, r),
    {
        let mut ctx = clone_words(&self.default_ctx_reg);
        self._disassemble_one(data, pc, &mut ctx)
    }

    /// A walk over the instructions of `buf`, which starts at address `orig_pc`.
    pub fn disassemble<'a, 'b>(&'a self, buf: &'b [u8], orig_pc: u64) -> (r: DisassemblyIter<'a, 'b>)
        ensures
            r.orig_pc == orig_pc,
            r.bits_consumed == 0,
            r.num_insns == 0,
            r.data@ == buf@,
    {
        DisassemblyIter { disasm: self, orig_pc, data: buf, bits_consumed: 0, num_insns: 0 }
    }
}

/// A walk over the instructions of a buffer: each step decodes at the current position,
/// and where nothing decodes skips one alignment unit and tries again in the default
/// context.
pub struct DisassemblyIter<'a, 'b> {
    pub disasm: &'a Disassembler,
    pub orig_pc: u64,
    pub data: &'b [u8],
    pub bits_consumed: usize,
    pub num_insns: usize,
}

/// Whether `r` and the bit position `end` are what walking `data` (at address `orig_pc`)
/// from bit `bits` on gives: at each position the bytes from its byte on are decoded in the
/// default context `dctx` (see `spec_decoded`); the first instruction found is the result,
/// and the position moves past it; where nothing decodes the position moves on by `align`
/// bits. Nothing is found at or past the end, where the address or the position would
/// overflow.
pub open spec fn spec_walk(lang: SleighLanguage, dctx: Seq<u32>, data: Seq<u8>, orig_pc: u64, align: usize, bits: int, r: Option<Instruction>, end: int) -> bool
    decreases data.len() * 8 + align - bits,
{
    if align == 0 || bits < 0 || bits >= data.len() * 8 {
        r is None && end == bits
    } else if orig_pc + bits / 8 > u64::MAX {
        r is None && end == bits
    } else {
        let pos = bits / 8;
        let pc = Address { space: AddressSpace::Ram, offset: (orig_pc + pos) as u64 };
        let rest = data.subrange(pos, data.len() as int);
        ||| (exists|insn: Instruction| #[trigger] spec_decoded(lang, rest, pc, dctx, Some(insn)) && (
            if insn.length > (usize::MAX / 8) as u64 || bits + insn.length * 8 > usize::MAX {
                r is None && end == bits
            } else {
                r == Some(insn) && end == bits + insn.length * 8
            }))
        ||| (spec_decoded(lang, rest, pc, dctx, None) && if bits + align > usize::MAX {
            r is None && end == bits
        } else {
            spec_walk(lang, dctx, data, orig_pc, align, bits + align, r, end)
        })
    }
}

/// A decoded instruction lies at the address it was decoded at.
pub proof fn lemma_decoded_address(lang: SleighLanguage, data: Seq<u8>, pc: Address, ctx: Seq<u32>, insn: Instruction)
    requires
        spec_decoded(lang, data, pc, ctx, Some(insn)),
    ensures
        insn.address == pc,
{
    let (m, bits, _) = spec_insn_resolve(lang, data, pc.offset, ctx).unwrap();
    let nb = spec_aligned_len(bits, lang.bit_align).unwrap();
    let (ms, fx) = choose|ms: MatchedSymbol, fx: (String, String)|
        view_matched(ms) == m && fx.0@ == "fixup_start"@ && fx.1@ == "fixup_end"@
        && #[trigger] spec_insn_built(ms, pc, nb, lang, fx, Some(insn));
}

/// Two decodings of the same bytes at the same address in the same context that both give
/// an instruction give it at the same address with the same length.
pub proof fn lemma_decoded_same_place(lang: SleighLanguage, data: Seq<u8>, pc: Address, ctx: Seq<u32>, i1: Instruction, i2: Instruction)
    requires
        spec_decoded(lang, data, pc, ctx, Some(i1)),
        spec_decoded(lang, data, pc, ctx, Some(i2)),
    ensures
        i1.address == i2.address,
        i1.length == i2.length,
{
    let (m, bits, _) = spec_insn_resolve(lang, data, pc.offset, ctx).unwrap();
    let nb = spec_aligned_len(bits, lang.bit_align).unwrap();
    let (ms1, fx1) = choose|ms: MatchedSymbol, fx: (String, String)|
        view_matched(ms) == m && fx.0@ == "fixup_start"@ && fx.1@ == "fixup_end"@
        && #[trigger] spec_insn_built(ms, pc, nb, lang, fx, Some(i1));
    let (ms2, fx2) = choose|ms: MatchedSymbol, fx: (String, String)|
        view_matched(ms) == m && fx.0@ == "fixup_start"@ && fx.1@ == "fixup_end"@
        && #[trigger] spec_insn_built(ms, pc, nb, lang, fx, Some(i2));
}

/// A walk over a buffer never moves back: it ends at or after the position it started at;
/// an instruction it finds lies in ram, at an address within the buffer at or after the one
/// of that position, and the walk ends at or past the instruction's last byte.
pub proof fn lemma_walk_forward(lang: SleighLanguage, dctx: Seq<u32>, data: Seq<u8>, orig_pc: u64, align: usize, bits: int, r: Option<Instruction>, end: int)
    requires
        spec_walk(lang, dctx, data, orig_pc, align, bits, r, end),
    ensures
        end >= bits,
        r matches Some(insn) ==> insn.address.space == AddressSpace::Ram && orig_pc + bits / 8 <= insn.address.offset
            && insn.address.offset < orig_pc + data.len()
            && end >= (insn.address.offset - orig_pc + insn.length) * 8,
    decreases data.len() * 8 + align - bits,
{
    if align == 0 || bits < 0 || bits >= data.len() * 8 {
    } else if orig_pc + bits / 8 > u64::MAX {
    } else {
        let pos = bits / 8;
        let pc = Address { space: AddressSpace::Ram, offset: (orig_pc + pos) as u64 };
        let rest = data.subrange(pos, data.len() as int);
        if exists|insn: Instruction| #[trigger] spec_decoded(lang, rest, pc, dctx, Some(insn)) && (
            if insn.length > (usize::MAX / 8) as u64 || bits + insn.length * 8 > usize::MAX {
                r is None && end == bits
            } else {
                r == Some(insn) && end == bits + insn.length * 8
            }) {
            let insn = choose|insn: Instruction| #[trigger] spec_decoded(lang, rest, pc, dctx, Some(insn)) && (
                if insn.length > (usize::MAX / 8) as u64 || bits + insn.length * 8 > usize::MAX {
                    r is None && end == bits
                } else {
                    r == Some(insn) && end == bits + insn.length * 8
                });
            lemma_decoded_address(lang, rest, pc, dctx, insn);
            assert(pos * 8 <= bits && pos < data.len()) by (nonlinear_arith)
                requires
                    pos == bits / 8,
                    0 <= bits < data.len() * 8,
            ;
        } else {
            if bits + align <= usize::MAX {
                lemma_walk_forward(lang, dctx, data, orig_pc, align, bits + align, r, end);
                assert((bits + align) / 8 >= bits / 8) by (nonlinear_arith)
                    requires
                        align > 0,
                        bits >= 0,
                ;
            }
        }
    }
}

/// Two steps of a walk, the second from where the first ended, find instructions in address
/// order: the second starts at or past the end of the first, so where instructions have a
/// length their addresses strictly increase.
pub proof fn lemma_walk_consecutive(lang: SleighLanguage, dctx: Seq<u32>, data: Seq<u8>, orig_pc: u64, align: usize, bits: int, i1: Instruction, end1: int, i2: Instruction, end2: int)
    requires
        spec_walk(lang, dctx, data, orig_pc, align, bits, Some(i1), end1),
        spec_walk(lang, dctx, data, orig_pc, align, end1, Some(i2), end2),
    ensures
        i2.address.offset >= i1.address.offset + i1.length,
        i1.length > 0 ==> i1.address.offset < i2.address.offset,
        i1.length > 0 ==> end1 > bits,
{
    lemma_walk_forward(lang, dctx, data, orig_pc, align, bits, Some(i1), end1);
    lemma_walk_forward(lang, dctx, data, orig_pc, align, end1, Some(i2), end2);
    let k = i1.address.offset - orig_pc + i1.length;
    assert(end1 / 8 >= k) by (nonlinear_arith)
        requires
            end1 >= k * 8,
    ;
    assert(bits / 8 * 8 <= bits) by (nonlinear_arith)
        requires
            bits >= 0,
    ;
}

/// Where step `k` of a walk starts: at `bits` for the first, else where the step before ended.
pub open spec fn spec_step_start(bits: int, ends: Seq<int>, k: int) -> int {
    if k == 0 { bits } else { ends[k - 1] }
}

/// Whether `insns` are the instructions that successive steps of a walk over `data` from
/// bit `bits` find (see `spec_walk`), each step starting where the one before ended, the
/// ends being `ends`; successive calls of `DisassemblyIter::next` that yield instructions
/// make such steps.
pub open spec fn spec_walk_steps(lang: SleighLanguage, dctx: Seq<u32>, data: Seq<u8>, orig_pc: u64, align: usize, bits: int, insns: Seq<Instruction>, ends: Seq<int>) -> bool {
    &&& insns.len() == ends.len()
    &&& forall|k: int| 0 <= k < insns.len() ==> #[trigger] spec_walk(lang, dctx, data, orig_pc, align, spec_step_start(bits, ends, k), Some(insns[k]), ends[k])
}

proof fn lemma_walk_steps_upto(lang: SleighLanguage, dctx: Seq<u32>, data: Seq<u8>, orig_pc: u64, align: usize, bits: int, insns: Seq<Instruction>, ends: Seq<int>, n: int)
    requires
        spec_walk_steps(lang, dctx, data, orig_pc, align, bits, insns, ends),
        bits >= 0,
        forall|k: int| 0 <= k < insns.len() ==> (#[trigger] insns[k]).length >= 1,
        0 <= n <= insns.len(),
    ensures
        forall|j: int, k: int| 0 <= j < k < n ==> insns[j].address.offset + insns[j].length <= insns[k].address.offset,
        forall|k: int| 0 <= k < n ==> orig_pc + k <= (#[trigger] insns[k]).address.offset < orig_pc + data.len(),
    decreases n,
{
    if n > 0 {
        let k = n - 1;
        lemma_walk_steps_upto(lang, dctx, data, orig_pc, align, bits, insns, ends, k);
        assert(spec_walk(lang, dctx, data, orig_pc, align, spec_step_start(bits, ends, k), Some(insns[k]), ends[k]));
        lemma_walk_forward(lang, dctx, data, orig_pc, align, spec_step_start(bits, ends, k), Some(insns[k]), ends[k]);
        if k > 0 {
            assert(spec_walk(lang, dctx, data, orig_pc, align, spec_step_start(bits, ends, k - 1), Some(insns[k - 1]), ends[k - 1]));
            lemma_walk_consecutive(lang, dctx, data, orig_pc, align, spec_step_start(bits, ends, k - 1), insns[k - 1], ends[k - 1], insns[k], ends[k]);
            assert(insns[k - 1].length >= 1);
            assert(orig_pc + (k - 1) <= insns[k - 1].address.offset);
        } else {
            assert(bits / 8 >= 0) by (nonlinear_arith)
                requires
                    bits >= 0,
            ;
        }
    }
}

/// A walk that finds only instructions of positive length finds them in strictly
/// increasing address order, each within the buffer, and finds at most as many as the
/// buffer has bytes; so a walk over a buffer comes to an end.
pub proof fn lemma_walk_steps(lang: SleighLanguage, dctx: Seq<u32>, data: Seq<u8>, orig_pc: u64, align: usize, bits: int, insns: Seq<Instruction>, ends: Seq<int>)
    requires
        spec_walk_steps(lang, dctx, data, orig_pc, align, bits, insns, ends),
        bits >= 0,
        forall|k: int| 0 <= k < insns.len() ==> (#[trigger] insns[k]).length >= 1,
    ensures
        forall|j: int, k: int| 0 <= j < k < insns.len() ==> insns[j].address.offset < insns[k].address.offset,
        forall|k: int| 0 <= k < insns.len() ==> orig_pc <= (#[trigger] insns[k]).address.offset < orig_pc + data.len(),
        insns.len() <= data.len(),
{
    lemma_walk_steps_upto(lang, dctx, data, orig_pc, align, bits, insns, ends, insns.len() as int);
    assert forall|j: int, k: int| 0 <= j < k < insns.len() implies insns[j].address.offset < insns[k].address.offset by {
        assert(insns[j].length >= 1);
    }
    if insns.len() > 0 {
        let k = insns.len() - 1;
        assert(orig_pc + k <= insns[k].address.offset < orig_pc + data.len());
    }
}

impl<'a, 'b> DisassemblyIter<'a, 'b> {
    /// Whether the walk cannot go on: the buffer is too large, its end has been reached, the
    /// disassembler's limit on instructions has been reached, or the language has no
    /// alignment.
    pub open spec fn spec_exhausted(&self) -> bool {
        ||| self.data@.len() > usize::MAX / 8
        ||| self.bits_consumed >= self.data@.len() * 8
        ||| (self.disasm.num matches Some(n) && self.num_insns >= n)
        ||| self.num_insns == usize::MAX
        ||| self.disasm.lang.bit_align == 0
    }

    /// The next instruction of the buffer (see `spec_walk`), if one decodes before its end
    /// (and before the disassembler's limit on instructions).
    pub fn next(&mut self) -> (r: Option<Instruction>)
        ensures
            final(self).disasm == old(self).disasm,
            final(self).data == old(self).data,
            final(self).orig_pc == old(self).orig_pc,
            old(self).spec_exhausted() ==> r is None && *final(self) == *old(self),
            !old(self).spec_exhausted() ==> spec_walk(old(self).disasm.lang, old(self).disasm.default_ctx_reg@,
                old(self).data@, old(self).orig_pc, old(self).disasm.lang.bit_align, old(self).bits_consumed as int,
                r, final(self).bits_consumed as int),
            !old(self).spec_exhausted() ==> final(self).num_insns == old(self).num_insns + if r is Some { 1int } else { 0int },
            old(self).disasm.num matches Some(n) ==> (old(self).num_insns <= n ==> final(self).num_insns <= n),
    {
        if self.data.len() > usize::MAX / 8 || self.bits_consumed >= self.data.len() * 8 {
            return None;
        }
        if let Some(n) = self.disasm.num {
            if self.num_insns as u64 >= n {
                return None;
            }
        }
        if self.num_insns == usize::MAX {
            return None;
        }
        let align = self.disasm.lang.bit_align;
        if align == 0 {
            return None;
        }
        let ghost lang = self.disasm.lang;
        let ghost dctx = self.disasm.default_ctx_reg@;
        let ghost b0 = self.bits_consumed as int;
        let data_bits = self.data.len() * 8;
        while self.bits_consumed < data_bits
            invariant
                data_bits == self.data@.len() * 8,
                self.bits_consumed < data_bits + align,
                self.bits_consumed >= old(self).bits_consumed,
                self.disasm == old(self).disasm,
                self.data == old(self).data,
                self.orig_pc == old(self).orig_pc,
                self.num_insns == old(self).num_insns,
                self.num_insns < usize::MAX,
                align == self.disasm.lang.bit_align,
                align > 0,
                lang == self.disasm.lang,
                dctx == self.disasm.default_ctx_reg@,
                b0 == old(self).bits_consumed,
                !old(self).spec_exhausted(),
                forall|r2: Option<Instruction>, e2: int| #[trigger] spec_walk(lang, dctx, self.data@, self.orig_pc, align, self.bits_consumed as int, r2, e2)
                    ==> spec_walk(lang, dctx, self.data@, self.orig_pc, align, b0, r2, e2),
            decreases data_bits + align - self.bits_consumed,
        {
            let pos = self.bits_consumed / 8;
            assert(pos < self.data@.len()) by (nonlinear_arith)
                requires
                    pos == self.bits_consumed / 8,
                    self.bits_consumed < self.data@.len() * 8,
            ;
            let ghost bits = self.bits_consumed as int;
            if self.orig_pc > u64::MAX - pos as u64 {
                proof {
                    assert(spec_walk(lang, dctx, self.data@, self.orig_pc, align, bits, None, bits));
                }
                return None;
            }
            let pc = Address { space: AddressSpace::Ram, offset: self.orig_pc + pos as u64 };
            let rest = vstd::slice::slice_subrange(self.data, pos, self.data.len());
            let mut ctx = clone_words(&self.disasm.default_ctx_reg);
            match self.disasm._disassemble_one(rest, pc, &mut ctx) {
                Some(insn) => {
                    let step = insn.length as usize;
                    if insn.length > (usize::MAX / 8) as u64 || self.bits_consumed > usize::MAX - step * 8 {
                        proof {
                            assert(spec_decoded(lang, rest@, pc, dctx, Some(insn)));
                            assert(spec_walk(lang, dctx, self.data@, self.orig_pc, align, bits, None, bits));
                        }
                        return None;
                    }
                    self.bits_consumed = self.bits_consumed + step * 8;
                    self.num_insns = self.num_insns + 1;
                    proof {
                        assert(spec_decoded(lang, rest@, pc, dctx, Some(insn)));
                        assert(spec_walk(lang, dctx, self.data@, self.orig_pc, align, bits, Some(insn), self.bits_consumed as int));
                    }
                    return Some(insn);
                },
                None => {
                    if self.bits_consumed > usize::MAX - align {
                        proof {
                            assert(spec_walk(lang, dctx, self.data@, self.orig_pc, align, bits, None, bits));
                        }
                        return None;
                    }
                    self.bits_consumed = self.bits_consumed + align;
                    proof {
                        assert forall|r2: Option<Instruction>, e2: int| #[trigger] spec_walk(lang, dctx, self.data@, self.orig_pc, align, self.bits_consumed as int, r2, e2)
                            implies spec_walk(lang, dctx, self.data@, self.orig_pc, align, b0, r2, e2) by {
                            assert(spec_walk(lang, dctx, self.data@, self.orig_pc, align, bits, r2, e2));
                        }
                    }
                },
            }
        }
        proof {
            assert(spec_walk(lang, dctx, self.data@, self.orig_pc, align, self.bits_consumed as int, None, self.bits_consumed as int));
        }
        None
    }
}

} // verus!
