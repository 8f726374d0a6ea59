//! Matching instruction bytes against a language's decision trees and resolving the
//! operands of the matched constructors.
use vstd::prelude::*;
use vstd::arithmetic::power2::{pow2, lemma_pow2_pos, lemma2_to64};
use vstd::bits::{low_bits_mask, lemma_u32_pow2_no_overflow, lemma_u32_shl_is_mul, lemma_u32_shr_is_div, lemma_u32_low_bits_mask_is_mod};
use std::collections::HashMap;
use crate::sla_parser::{
    MaskWord, PatternBlock, DecisionPattern, DecisionTree, Subtable, Constructor, Symbol,
    SymbolBody, SleighLanguage, ContextOp, Operand, Varlist, NameTable, Valuemap, Field, TokenField, ContextField,
    Expr, ExprOp, FixupType, get_word, get_word_le, get_symbol, spec_be, spec_le, spec_avail,
};

verus! {

/// The 32-bit instruction word at byte `start`: up to four bytes, big-endian, as many as
/// lie within `words`.
pub open spec fn spec_insn_word(words: Seq<u8>, start: int) -> u32 {
    spec_be(words, start, spec_avail(words.len(), start as nat, 4)) as u32
}

/// Whether every mask word of an instruction pattern block matches.
pub open spec fn spec_insn_block_matches(b: PatternBlock, words: Seq<u8>) -> bool {
    forall|i: int|
        0 <= i < b.masks@.len() ==> (spec_insn_word(words, b.offset + 4 * i) & b.masks@[i].mask)
            == b.masks@[i].val
}

/// The context word read `b` bytes into word `idx`: the rest of word `idx` followed by the
/// start of the next word (0 past the end). For `b == 0` the next word is or-ed in
/// unshifted, since a 32-bit shift by 32 shifts by 0.
pub open spec fn spec_ctx_word(words: Seq<u32>, idx: int, b: u32) -> u32 {
    let cw = words[idx];
    let nw: u32 = if idx < words.len() - 1 {
        words[idx + 1]
    } else {
        0
    };
    let lo = ((1u64 << ((32 - b * 8) as u64)) - 1) as u32;
    ((cw & lo) << ((b * 8) as u32)) | (nw >> (((32 - b * 8) % 32) as u32))
}

/// Whether a context pattern block lies within the context words.
pub open spec fn spec_ctx_block_in_range(b: PatternBlock, words: Seq<u32>) -> bool {
    b.offset / 4 + b.masks@.len() <= words.len()
}

/// Whether every mask word of a context pattern block matches.
pub open spec fn spec_ctx_block_matches(b: PatternBlock, words: Seq<u32>) -> bool {
    forall|i: int|
        0 <= i < b.masks@.len() ==> (spec_ctx_word(words, b.offset / 4 + i, b.offset % 4)
            & b.masks@[i].mask) == b.masks@[i].val
}

/// Whether the offsets of an instruction pattern block can be computed.
pub open spec fn spec_insn_block_in_range(b: PatternBlock) -> bool {
    b.offset + 4 * b.masks@.len() <= usize::MAX
}

/// Whether a pattern matches: `None` where a block's offsets lie outside what can be read.
pub open spec fn spec_match_pattern(p: DecisionPattern, insn: Seq<u8>, ctx: Seq<u32>) -> Option<
    bool,
>
    decreases p,
{
    match p {
        DecisionPattern::Context(b) => if spec_ctx_block_in_range(b, ctx) {
            Some(spec_ctx_block_matches(b, ctx))
        } else {
            None
        },
        DecisionPattern::Instruction(b) => if spec_insn_block_in_range(b) {
            Some(spec_insn_block_matches(b, insn))
        } else {
            None
        },
        DecisionPattern::Combine((p1, p2)) => match spec_match_pattern(*p1, insn, ctx) {
            None => None,
            Some(false) => Some(false),
            Some(true) => spec_match_pattern(*p2, insn, ctx),
        },
    }
}

fn match_ctx_pattern_block(block: &PatternBlock, words: &Vec<u32>) -> (r: bool)
    requires
        spec_ctx_block_in_range(*block, words@),
    ensures
        r == spec_ctx_block_matches(*block, words@),
{
    let mut word_idx: usize = (block.offset / 4) as usize;
    let byte_idx: u32 = block.offset % 4;
    let mut i: usize = 0;
    while i < block.masks.len()
        invariant
            spec_ctx_block_in_range(*block, words@),
            byte_idx == block.offset % 4,
            i <= block.masks@.len(),
            word_idx == block.offset / 4 + i,
            forall|j: int|
                0 <= j < i ==> (spec_ctx_word(words@, block.offset / 4 + j, byte_idx)
                    & block.masks@[j].mask) == block.masks@[j].val,
        decreases block.masks@.len() - i,
    {
        let mask_word = &block.masks[i];
        let cw = words[word_idx];
        let nw: u32 = if word_idx < words.len() - 1 {
            words[word_idx + 1]
        } else {
            0
        };
        let sh: u64 = (32 - byte_idx * 8) as u64;
        assert(sh <= 32 ==> (1u64 << sh) >= 1) by (bit_vector);
        let lo: u32 = ((1u64 << sh) - 1) as u32;
        let word: u32 = ((cw & lo) << (byte_idx * 8)) | (nw >> ((32 - byte_idx * 8) % 32));
        assert(word == spec_ctx_word(words@, word_idx as int, byte_idx));
        word_idx = word_idx + 1;
        if (word & mask_word.mask) != mask_word.val {
            return false;
        }
        i = i + 1;
    }
    true
}

fn match_insn_pattern_block(block: &PatternBlock, words: &[u8]) -> (r: bool)
    requires
        spec_insn_block_in_range(*block),
    ensures
        r == spec_insn_block_matches(*block, words@),
{
    let mut i: usize = 0;
    while i < block.masks.len()
        invariant
            spec_insn_block_in_range(*block),
            i <= block.masks@.len(),
            forall|j: int|
                0 <= j < i ==> (spec_insn_word(words@, block.offset + 4 * j)
                    & block.masks@[j].mask) == block.masks@[j].val,
        decreases block.masks@.len() - i,
    {
        let mask_word = &block.masks[i];
        let word = get_word(words, (block.offset as usize) + i * 4, 4) as u32;
        if (word & mask_word.mask) != mask_word.val {
            return false;
        }
        i = i + 1;
    }
    true
}

/// Whether a pattern matches the instruction bytes and context; `None` where a block lies
/// outside what can be read.
pub fn match_pattern(pattern: &DecisionPattern, insn_words: &[u8], ctx_words: &Vec<u32>) -> (r:
    Option<bool>)
    ensures
        r == spec_match_pattern(*pattern, insn_words@, ctx_words@),
    decreases pattern,
{
    match pattern {
        DecisionPattern::Context(pat_blk) => {
            if (pat_blk.offset / 4) as usize <= ctx_words.len() && pat_blk.masks.len()
                <= ctx_words.len() - (pat_blk.offset / 4) as usize {
                Some(match_ctx_pattern_block(pat_blk, ctx_words))
            } else {
                None
            }
        },
        DecisionPattern::Instruction(pat_blk) => {
            if pat_blk.masks.len() <= (usize::MAX - pat_blk.offset as usize) / 4 {
                Some(match_insn_pattern_block(pat_blk, insn_words))
            } else {
                None
            }
        },
        DecisionPattern::Combine((pat1, pat2)) => {
            match match_pattern(&**pat1, insn_words, ctx_words) {
                None => None,
                Some(false) => Some(false),
                Some(true) => match_pattern(&**pat2, insn_words, ctx_words),
            }
        },
    }
}

/// The child a decision node selects: the `size`-bit field at bit `start` (counted from the
/// top of the 32-bit word) of the instruction word or of context word `start / 32`. `None`
/// where the field cannot be read.
pub open spec fn spec_node_index(is_ctx: bool, start: u32, size: u32, iword: u32, ctx: Seq<u32>) -> Option<int> {
    if start + size > 32 || size >= 32 || (is_ctx && start / 32 >= ctx.len()) || (!is_ctx
        && start + size == 0) {
        None
    } else {
        let bit_start = (32 - (start + size)) as u32;
        let mask = ((1u32 << size) - 1) as u32;
        if is_ctx {
            Some(((ctx[(start / 32) as int] >> (bit_start % 32)) & mask) as int)
        } else {
            Some(((iword >> bit_start) & mask) as int)
        }
    }
}

/// The leaf of the decision tree that the instruction word and context lead to; `None` at a
/// node without children or whose field cannot be read.
pub open spec fn spec_walk(tree: DecisionTree, iword: u32, ctx: Seq<u32>) -> Option<Seq<(u32, DecisionPattern)>>
    decreases tree,
{
    match tree {
        DecisionTree::Leaf(pairs) => Some(pairs@),
        DecisionTree::NonLeaf((is_ctx, start, size, children)) => {
            if children@.len() == 0 {
                None
            } else if size == 0 && children@.len() == 1 {
                spec_walk(children@[0], iword, ctx)
            } else {
                match spec_node_index(is_ctx, start, size, iword, ctx) {
                    None => None,
                    Some(idx) => {
                        let j = if idx < children@.len() - 1 { idx } else { children@.len() - 1 };
                        spec_walk(children@[j], iword, ctx)
                    },
                }
            }
        },
    }
}

/// Reading a bit field: the `size` bits of `w` that begin `start` bits below its top bit,
/// as a number, are `w` divided by two to the power of the bits below the field, modulo two
/// to the power of its width.
proof fn lemma_field_value(w: u32, b: u32, size: u32)
    requires
        b + size <= 32,
        size < 32,
    ensures
        ((w >> (b % 32)) & (((1u32 << size) - 1) as u32)) as int == (w as int / (pow2(b as nat) as int)) % (pow2(size as nat) as int),
{
    lemma_u32_pow2_no_overflow(size as nat);
    lemma_pow2_pos(size as nat);
    lemma_u32_shl_is_mul(1u32, size);
    assert((1u32 << size) as int == pow2(size as nat));
    assert(((1u32 << size) - 1) as u32 == low_bits_mask(size as nat) as u32);
    if b == 32 {
        assert(size == 0);
        lemma2_to64();
        let x: u32 = w >> 0u32;
        lemma_u32_low_bits_mask_is_mod(x, 0);
    } else {
        lemma_u32_shr_is_div(w, b);
        lemma_pow2_pos(b as nat);
        let x: u32 = w >> b;
        lemma_u32_low_bits_mask_is_mod(x, size as nat);
        assert(b % 32 == b);
    }
}

/// At a node with two or more children (or one that reads a field), the walk goes on in
/// child `min(v, n - 1)`, where `v` is the `size`-bit field that begins `start` bits below
/// the top of the instruction word (or of context word `start / 32`).
pub proof fn lemma_walk_node_child(is_ctx: bool, start: u32, size: u32, children: Vec<DecisionTree>, iword: u32, ctx: Seq<u32>)
    requires
        children@.len() >= 1,
        !(size == 0 && children@.len() == 1),
        start + size <= 32,
        size < 32,
        is_ctx ==> start / 32 < ctx.len(),
        !is_ctx ==> start + size > 0,
    ensures
        ({
            let word: u32 = if is_ctx { ctx[(start / 32) as int] } else { iword };
            let v = (word as int / (pow2((32 - start - size) as nat) as int)) % (pow2(size as nat) as int);
            let j = if v < children@.len() - 1 { v } else { children@.len() - 1 };
            spec_walk(DecisionTree::NonLeaf((is_ctx, start, size, children)), iword, ctx)
                == spec_walk(children@[j], iword, ctx)
        }),
{
    let word: u32 = if is_ctx { ctx[(start / 32) as int] } else { iword };
    lemma_field_value(word, (32 - (start + size)) as u32, size);
}

/// The first candidate from position `i` on whose pattern matches; `None` when none does,
/// or a candidate names no constructor, or a pattern cannot be read.
pub open spec fn spec_first_match(
    pairs: Seq<(u32, DecisionPattern)>,
    i: int,
    n_ctors: nat,
    insn: Seq<u8>,
    ctx: Seq<u32>,
) -> Option<int>
    decreases pairs.len() - i,
{
    if i < 0 || i >= pairs.len() {
        None
    } else if pairs[i].0 >= n_ctors {
        None
    } else {
        match spec_match_pattern(pairs[i].1, insn, ctx) {
            None => None,
            Some(true) => Some(pairs[i].0 as int),
            Some(false) => spec_first_match(pairs, i + 1, n_ctors, insn, ctx),
        }
    }
}

/// The index of the constructor of `table` that the instruction bytes and context select.
pub open spec fn spec_resolve_ctor(table: Subtable, insn: Seq<u8>, ctx: Seq<u32>) -> Option<int> {
    match spec_walk(table.decision_tree, spec_insn_word(insn, 0), ctx) {
        None => None,
        Some(pairs) => match spec_first_match(pairs, 0, table.constructors@.len(), insn, ctx) {
            None => None,
            Some(id) => if table.constructors@[id].length * 8 <= u32::MAX {
                Some(id)
            } else {
                None
            },
        },
    }
}

fn walk<'t>(tree: &'t DecisionTree, iword: u32, ctx: &Vec<u32>) -> (r: Option<&'t Vec<(u32, DecisionPattern)>>)
    ensures
        match r {
            Some(p) => spec_walk(*tree, iword, ctx@) == Some(p@),
            None => spec_walk(*tree, iword, ctx@) is None,
        },
    decreases tree,
{
    match tree {
        DecisionTree::Leaf(pairs) => Some(pairs),
        DecisionTree::NonLeaf((is_context, start, size, children)) => {
            if children.len() == 0 {
                return None;
            }
            if *size == 0 && children.len() == 1 {
                return walk(&children[0], iword, ctx);
            }
            if *start > 32 || *size > 32 - *start || *size >= 32 {
                return None;
            }
            let bit_start: u32 = 32 - (*start + *size);
            let sz: u32 = *size;
            assert(sz < 32 ==> (1u32 << sz) >= 1) by (bit_vector);
            let mask: u32 = (1u32 << sz) - 1;
            let idx: usize = if *is_context {
                if (*start / 32) as usize >= ctx.len() {
                    return None;
                }
                ((ctx[(*start / 32) as usize] >> (bit_start % 32)) & mask) as usize
            } else {
                if bit_start >= 32 {
                    return None;
                }
                ((iword >> bit_start) & mask) as usize
            };
            let j = if idx < children.len() - 1 { idx } else { children.len() - 1 };
            walk(&children[j], iword, ctx)
        },
    }
}

/// Picks the constructor of `table` for the instruction bytes and context, with its length
/// in bits.
pub fn resolve_constructor<'a>(words: &[u8], table: &'a Subtable, ctx: &Vec<u32>) -> (r: Option<(&'a Constructor, usize)>)
    ensures
        match spec_resolve_ctor(*table, words@, ctx@) {
            Some(id) => r is Some && *r.unwrap().0 == table.constructors@[id] && r.unwrap().1 == table.constructors@[id].length * 8,
            None => r is None,
        },
{
    let iword = get_word(words, 0, 4) as u32;
    let pairs = match walk(&table.decision_tree, iword, ctx) {
        Some(p) => p,
        None => return None,
    };
    let mut i: usize = 0;
    while i < pairs.len()
        invariant
            i <= pairs@.len(),
            iword == spec_insn_word(words@, 0),
            spec_walk(table.decision_tree, iword, ctx@) == Some(pairs@),
            spec_first_match(pairs@, 0, table.constructors@.len(), words@, ctx@)
                == spec_first_match(pairs@, i as int, table.constructors@.len(), words@, ctx@),
        decreases pairs@.len() - i,
    {
        let ct_id = pairs[i].0;
        if ct_id as usize >= table.constructors.len() {
            return None;
        }
        match match_pattern(&pairs[i].1, words, ctx) {
            None => return None,
            Some(true) => {
                let ct = &table.constructors[ct_id as usize];
                if ct.length > u32::MAX / 8 {
                    return None;
                }
                return Some((ct, (ct.length * 8) as usize));
            },
            Some(false) => {},
        }
        i = i + 1;
    }
    None
}

/// What an operand of an instruction resolved to: a constructor with its operands (each
/// with the address it is relative to, if any), a symbol chosen by a field value, a literal
/// `(value, size)`, or a name.
#[derive(Debug)]
pub enum MatchedSymbol<'a> {
    Constructor((&'a Constructor, Vec<(MatchedSymbol<'a>, Option<FixupType>)>)),
    Symbol(&'a Symbol, usize),
    Literal((i64, usize)),
    String(&'a str),
}

/// A resolved symbol as a value: a constructor with its operands in order, a symbol with
/// the index it was chosen by, a literal `(value, size)`, or a name as its characters.
pub enum MatchedView {
    Constructor(Constructor, Seq<(MatchedView, Option<FixupType>)>),
    Symbol(Symbol, usize),
    Literal(i64, usize),
    String(Seq<char>),
}

/// What a resolved symbol holds, as a value.
pub open spec fn view_matched<'a>(m: MatchedSymbol<'a>) -> MatchedView
    decreases m, 0int,
{
    match m {
        MatchedSymbol::Constructor((c, ops)) => {
            proof {
                let pair = (c, ops);
                assert(decreases_to!(m => pair));
                assert(decreases_to!(pair => ops));
                assert(decreases_to!(ops => ops@));
            }
            MatchedView::Constructor(*c, view_operands(ops@))
        },
        MatchedSymbol::Symbol(s, i) => MatchedView::Symbol(*s, i),
        MatchedSymbol::Literal((v, sz)) => MatchedView::Literal(v, sz),
        MatchedSymbol::String(s) => MatchedView::String(s@),
    }
}

/// What resolved operands hold, as values.
pub open spec fn view_operands<'a>(ops: Seq<(MatchedSymbol<'a>, Option<FixupType>)>) -> Seq<(MatchedView, Option<FixupType>)>
    decreases ops, ops.len(),
{
    if ops.len() == 0 {
        Seq::empty()
    } else {
        proof {
            assert(decreases_to!(ops => ops[ops.len() - 1]));
            assert(decreases_to!(ops[ops.len() - 1] => ops[ops.len() - 1].0));
            assert(decreases_to!(ops => ops.subrange(0, ops.len() - 1)));
        }
        view_operands(ops.subrange(0, ops.len() - 1)).push((view_matched(ops[ops.len() - 1].0), ops[ops.len() - 1].1))
    }
}

proof fn lemma_view_operands<'a>(ops: Seq<(MatchedSymbol<'a>, Option<FixupType>)>)
    ensures
        view_operands(ops).len() == ops.len(),
        forall|i: int| 0 <= i < ops.len() ==> #[trigger] view_operands(ops)[i] == (view_matched(ops[i].0), ops[i].1),
    decreases ops.len(),
{
    if ops.len() > 0 {
        let pre = ops.subrange(0, ops.len() - 1);
        lemma_view_operands(pre);
        assert forall|i: int| 0 <= i < ops.len() implies #[trigger] view_operands(ops)[i] == (view_matched(ops[i].0), ops[i].1) by {
            if i < ops.len() - 1 {
                assert(pre[i] == ops[i]);
            }
        }
    }
}

proof fn lemma_view_operands_push<'a>(ops: Seq<(MatchedSymbol<'a>, Option<FixupType>)>, x: (MatchedSymbol<'a>, Option<FixupType>))
    ensures
        view_operands(ops.push(x)) == view_operands(ops).push((view_matched(x.0), x.1)),
{
    assert(ops.push(x).subrange(0, ops.len() as int) =~= ops);
}

/// The big-endian 32-bit value of `k` bytes at `sb`; a byte past the end reads as 0 where
/// `fill` holds, and makes the read fail otherwise.
pub open spec fn spec_be32(words: Seq<u8>, sb: int, k: nat, fill: bool) -> Option<u32>
    decreases k,
{
    if k == 0 {
        Some(0)
    } else {
        match spec_be32(words, sb, (k - 1) as nat, fill) {
            None => None,
            Some(w) => if sb + k - 1 < words.len() {
                Some(((w << 8u32) | (words[sb + k - 1] as u32)) as u32)
            } else if fill {
                Some((w << 8u32) as u32)
            } else {
                None
            },
        }
    }
}

fn be32(words: &[u8], sb: usize, nb: usize, fill: bool) -> (r: Option<u32>)
    ensures
        r == spec_be32(words@, sb as int, nb as nat, fill),
{
    let mut w: u32 = 0;
    let mut i: usize = 0;
    while i < nb
        invariant
            i <= nb,
            spec_be32(words@, sb as int, i as nat, fill) == Some(w),
        decreases nb - i,
    {
        let inside = sb < words.len() && i < words.len() - sb;
        if inside {
            w = (w << 8) | (words[sb + i] as u32);
        } else if fill {
            w = w << 8;
        } else {
            return None;
        }
        i = i + 1;
    }
    Some(w)
}

/// The field of `size` bits at bit `start` of a 64-bit word; `None` where a shift would
/// reach 64 bits.
pub open spec fn spec_bits64(w: u64, start: int, size: int) -> Option<u64> {
    if start < 0 || start >= 64 || size < 0 || size >= 64 {
        None
    } else {
        Some((w >> (start as u64)) & (((1u64 << (size as u64)) - 1) as u64))
    }
}

/// The field of `size` bits at bit `start` of a 32-bit word; `None` where a shift would
/// reach 32 bits.
pub open spec fn spec_bits32(w: u32, start: int, size: int) -> Option<u32> {
    if start < 0 || start >= 32 || size < 0 || size >= 32 {
        None
    } else {
        Some((w >> (start as u32)) & (((1u32 << (size as u32)) - 1) as u32))
    }
}

fn bits64(w: u64, start: u32, size: u32) -> (r: Option<u64>)
    ensures
        r == spec_bits64(w, start as int, size as int),
{
    if start >= 64 || size >= 64 {
        return None;
    }
    assert(size < 64 ==> (1u64 << size) >= 1) by (bit_vector);
    Some((w >> start) & ((1u64 << size) - 1))
}

fn bits32(w: u32, start: u32, size: u32) -> (r: Option<u32>)
    ensures
        r == spec_bits32(w, start as int, size as int),
{
    if start >= 32 || size >= 32 {
        return None;
    }
    assert(size < 32 ==> (1u32 << size) >= 1) by (bit_vector);
    Some((w >> start) & ((1u32 << size) - 1))
}

/// The bit length that a field read ends at: `end_byte * 8 + (7 - end_bit % 8) + size`,
/// when it fits 32 bits.
pub open spec fn spec_field_end(end_byte: u32, end_bit: u32, size: int) -> Option<int> {
    let e = end_byte * 8 + (8 - end_bit % 8 - 1) + size;
    if e <= u32::MAX {
        Some(e)
    } else {
        None
    }
}

fn field_end(end_byte: u32, end_bit: u32, size: u32) -> (r: Option<usize>)
    ensures
        match spec_field_end(end_byte, end_bit, size as int) {
            Some(e) => r == Some(e as usize),
            None => r is None,
        },
{
    let e: u64 = (end_byte as u64) * 8 + (8 - (end_bit as u64) % 8 - 1) + (size as u64);
    if e > u32::MAX as u64 {
        None
    } else {
        Some(e as usize)
    }
}

/// The start bit and width of a token field within its bytes, where the subtractions stay
/// within 32 bits: `(start_bit - start_byte * 8, end_bit - start_bit + 1)`.
pub open spec fn spec_token_span(start_bit: u32, end_bit: u32, start_byte: u32) -> Option<(int, int)> {
    if start_byte * 8 > u32::MAX || start_byte * 8 > start_bit || end_bit < start_bit || end_bit
        - start_bit + 1 > u32::MAX {
        None
    } else {
        Some(((start_bit - start_byte * 8) as int, (end_bit - start_bit + 1) as int))
    }
}

/// The number of bytes a field spans, `end_byte - start_byte + 1`, where it fits 32 bits.
pub open spec fn spec_num_bytes(start_byte: u32, end_byte: u32) -> Option<nat> {
    if end_byte < start_byte || end_byte - start_byte + 1 > u32::MAX {
        None
    } else {
        Some((end_byte - start_byte + 1) as nat)
    }
}

fn num_bytes(start_byte: u32, end_byte: u32) -> (r: Option<usize>)
    ensures
        match spec_num_bytes(start_byte, end_byte) {
            Some(n) => r == Some(n as usize),
            None => r is None,
        },
{
    if end_byte < start_byte || end_byte - start_byte == u32::MAX {
        None
    } else {
        Some((end_byte - start_byte + 1) as usize)
    }
}

fn token_span(start_bit: u32, end_bit: u32, start_byte: u32) -> (r: Option<(u32, u32)>)
    ensures
        match spec_token_span(start_bit, end_bit, start_byte) {
            Some((a, b)) => r == Some((a as u32, b as u32)),
            None => r is None,
        },
{
    if start_byte > u32::MAX / 8 || start_byte * 8 > start_bit || end_bit < start_bit || end_bit
        - start_bit == u32::MAX {
        None
    } else {
        Some((start_bit - start_byte * 8, end_bit - start_bit + 1))
    }
}

/// The entry index and bit end that a varlist's field selects in the instruction bytes.
pub open spec fn spec_varlist_read(field: Field, words: Seq<u8>) -> Option<(int, int)> {
    match field {
        Field::Token(t) => match (spec_num_bytes(t.start_byte, t.end_byte), spec_token_span(
            t.start_bit,
            t.end_bit,
            t.start_byte,
        )) {
            (Some(nb), Some((start, size))) => {
                let k = spec_avail(words.len(), t.start_byte as nat, nb);
                if !t.big_endian && k > 8 {
                    None
                } else {
                    let w = if t.big_endian {
                        spec_be(words, t.start_byte as int, k)
                    } else {
                        spec_le(words, t.start_byte as int, k)
                    };
                    match (spec_bits64(w, start, size), spec_field_end(t.end_byte, t.end_bit, size)) {
                        (Some(idx), Some(e)) => Some((idx as int, e)),
                        _ => None,
                    }
                }
            },
            _ => None,
        },
        Field::Context(t) => match (spec_num_bytes(t.start_byte, t.end_byte), spec_token_span(
            t.start_bit,
            t.end_bit,
            t.start_byte,
        )) {
            (Some(nb), Some((start, size))) => match spec_be32(words, t.start_byte as int, nb, true) {
                None => None,
                Some(w) => match (spec_bits32(w, start, size), spec_field_end(t.end_byte, t.end_bit, size)) {
                    (Some(idx), Some(e)) => Some((idx as int, e)),
                    _ => None,
                },
            },
            _ => None,
        },
    }
}

/// What a varlist resolves to: the symbol of the selected entry, with the entry's index and
/// the bit end; `None` where the entry is empty or the field cannot be read.
pub open spec fn spec_varlist_result(lang: SleighLanguage, varlist: Varlist, words: Seq<u8>) -> Option<(u32, int, int)> {
    match spec_varlist_read(varlist.field, words) {
        None => None,
        Some((idx, e)) => if idx < varlist.vars@.len() && varlist.vars@[idx] is Some
            && lang.symbols@.contains_key(varlist.vars@[idx].unwrap()) {
            Some((varlist.vars@[idx].unwrap(), idx, e))
        } else {
            None
        },
    }
}

fn resolve_varlist<'a>(words: &[u8], varlist: &'a Varlist, lang: &'a SleighLanguage) -> (r: Option<(MatchedSymbol<'a>, usize)>)
    ensures
        match spec_varlist_result(*lang, *varlist, words@) {
            Some((id, idx, e)) => r is Some && r.unwrap().1 == e && (r.unwrap().0 matches
                MatchedSymbol::Symbol(s, i) && *s == lang.symbols@[id] && i == idx),
            None => r is None,
        },
{
    let (nb, span, end_byte, end_bit, sb) = match &varlist.field {
        Field::Token(t) => (num_bytes(t.start_byte, t.end_byte), token_span(t.start_bit, t.end_bit, t.start_byte), t.end_byte, t.end_bit, t.start_byte),
        Field::Context(t) => (num_bytes(t.start_byte, t.end_byte), token_span(t.start_bit, t.end_bit, t.start_byte), t.end_byte, t.end_bit, t.start_byte),
    };
    let (nb, (start, size)) = match (nb, span) {
        (Some(n), Some(sp)) => (n, sp),
        _ => return None,
    };
    let idx: u64 = match &varlist.field {
        Field::Token(t) => {
            let avail: usize = if (sb as usize) >= words.len() {
                0
            } else if nb <= words.len() - (sb as usize) {
                nb
            } else {
                words.len() - (sb as usize)
            };
            let w = if t.big_endian {
                get_word(words, sb as usize, nb)
            } else {
                if avail > 8 {
                    return None;
                }
                get_word_le(words, sb as usize, nb)
            };
            match bits64(w, start, size) {
                Some(v) => v,
                None => return None,
            }
        },
        Field::Context(_) => {
            let w = match be32(words, sb as usize, nb, true) {
                Some(w) => w,
                None => return None,
            };
            match bits32(w, start, size) {
                Some(v) => v as u64,
                None => return None,
            }
        },
    };
    let e = match field_end(end_byte, end_bit, size) {
        Some(e) => e,
        None => return None,
    };
    if idx >= varlist.vars.len() as u64 {
        return None;
    }
    match varlist.vars[idx as usize] {
        Some(var_idx) => match get_symbol(lang, var_idx) {
            Some(var) => Some((MatchedSymbol::Symbol(var, idx as usize), e)),
            None => None,
        },
        None => None,
    }
}

/// The name index and bit end that a name table's token field selects; `None` for a
/// context field or where the field cannot be read.
pub open spec fn spec_nametab_read(field: Field, words: Seq<u8>) -> Option<(int, int)> {
    match field {
        Field::Token(t) => match (spec_num_bytes(t.start_byte, t.end_byte), spec_token_span(
            t.start_bit,
            t.end_bit,
            t.start_byte,
        )) {
            (Some(nb), Some((start, size))) => match spec_be32(words, t.start_byte as int, nb, false) {
                None => None,
                Some(w) => match (spec_bits32(w, start, size), spec_field_end(t.end_byte, t.end_bit, size)) {
                    (Some(idx), Some(e)) => Some((idx as int, e)),
                    _ => None,
                },
            },
            _ => None,
        },
        Field::Context(_) => None,
    }
}

fn resolve_nametab<'a>(words: &[u8], nametab: &'a NameTable) -> (r: Option<(MatchedSymbol<'a>, usize)>)
    ensures
        match spec_nametab_read(nametab.field, words@) {
            Some((idx, e)) => if idx < nametab.names@.len() && nametab.names@[idx] is Some {
                r is Some && r.unwrap().1 == e && (r.unwrap().0 matches MatchedSymbol::String(n)
                    && n@ == nametab.names@[idx].unwrap()@)
            } else {
                r is None
            },
            None => r is None,
        },
{
    match &nametab.field {
        Field::Token(t) => {
            let (nb, (start, size)) = match (num_bytes(t.start_byte, t.end_byte), token_span(t.start_bit, t.end_bit, t.start_byte)) {
                (Some(n), Some(sp)) => (n, sp),
                _ => return None,
            };
            let w = match be32(words, t.start_byte as usize, nb, false) {
                Some(w) => w,
                None => return None,
            };
            let idx = match bits32(w, start, size) {
                Some(v) => v as usize,
                None => return None,
            };
            let e = match field_end(t.end_byte, t.end_bit, size) {
                Some(e) => e,
                None => return None,
            };
            if idx >= nametab.names.len() {
                return None;
            }
            match &nametab.names[idx] {
                Some(name) => Some((MatchedSymbol::String(name.as_str()), e)),
                None => None,
            }
        },
        Field::Context(_) => None,
    }
}

/// The entry index, field width and bit end that a value map's token field selects (its
/// start bit taken as is); `None` for a context field or where the field cannot be read.
pub open spec fn spec_valuemap_read(field: Field, words: Seq<u8>) -> Option<(int, int, int)> {
    match field {
        Field::Token(t) => match spec_num_bytes(t.start_byte, t.end_byte) {
            Some(nb) => if t.end_bit < t.start_bit || t.end_bit - t.start_bit + 1 > u32::MAX
                || t.end_bit > 7 {
                None
            } else {
                let size = t.end_bit - t.start_bit + 1;
                match spec_be32(words, t.start_byte as int, nb, false) {
                    None => None,
                    Some(w) => match spec_bits32(w, t.start_bit as int, size) {
                        Some(idx) => if t.end_byte * 8 + (8 - t.end_bit - 1) + size <= u32::MAX {
                            Some((idx as int, size, t.end_byte * 8 + (8 - t.end_bit - 1) + size))
                        } else {
                            None
                        },
                        None => None,
                    },
                }
            },
            None => None,
        },
        Field::Context(_) => None,
    }
}

fn resolve_valuemap<'a>(words: &[u8], valuemap: &'a Valuemap) -> (r: Option<(MatchedSymbol<'a>, usize)>)
    ensures
        match spec_valuemap_read(valuemap.field, words@) {
            Some((idx, size, e)) => if idx < valuemap.vars@.len() {
                r is Some && r.unwrap().1 == e && (r.unwrap().0 matches MatchedSymbol::Literal((v, sz))
                    && v == valuemap.vars@[idx] as i64 && sz == size)
            } else {
                r is None
            },
            None => r is None,
        },
{
    match &valuemap.field {
        Field::Token(t) => {
            let nb = match num_bytes(t.start_byte, t.end_byte) {
                Some(n) => n,
                None => return None,
            };
            if t.end_bit < t.start_bit || t.end_bit - t.start_bit == u32::MAX || t.end_bit > 7 {
                return None;
            }
            let size: u32 = t.end_bit - t.start_bit + 1;
            let w = match be32(words, t.start_byte as usize, nb, false) {
                Some(w) => w,
                None => return None,
            };
            let idx = match bits32(w, t.start_bit, size) {
                Some(v) => v as usize,
                None => return None,
            };
            let e: u64 = (t.end_byte as u64) * 8 + (8 - (t.end_bit as u64) - 1) + (size as u64);
            if e > u32::MAX as u64 {
                return None;
            }
            if idx >= valuemap.vars.len() {
                return None;
            }
            let val = valuemap.vars[idx] as i64;
            Some((MatchedSymbol::Literal((val, size as usize)), e as usize))
        },
        Field::Context(_) => None,
    }
}

/// A literal of `sz` bytes read as a signed number (sizes other than 1, 2 and 4 as they are).
pub open spec fn spec_signed_of(val: i64, sz: usize) -> i64 {
    if sz == 1 {
        (val as i8) as i64
    } else if sz == 2 {
        (val as i16) as i64
    } else if sz == 4 {
        (val as i32) as i64
    } else {
        val
    }
}

/// A binary operator of a pattern expression; `None` where the operation overflows, shifts
/// right by a negative amount or by 64 or more, or is not binary.
pub open spec fn spec_binop(op: ExprOp, a: i64, b: i64) -> Option<i64> {
    match op {
        ExprOp::Xor => Some(a ^ b),
        ExprOp::Add => if i64::MIN <= a + b <= i64::MAX {
            Some((a + b) as i64)
        } else {
            None
        },
        ExprOp::Sub => if i64::MIN <= a - b <= i64::MAX {
            Some((a - b) as i64)
        } else {
            None
        },
        ExprOp::Mult => Some(vstd::wrapping::i64_specs::wrapping_mul(a, b)),
        ExprOp::And => Some(a & b),
        ExprOp::Or => Some(a | b),
        ExprOp::Lshift => if (b as u32) >= 64 {
            Some(0)
        } else {
            Some(vstd::wrapping::i64_specs::wrapping_shl(a, b as u32))
        },
        ExprOp::Rshift => if 0 <= b < 64 {
            Some(vstd::wrapping::i64_specs::wrapping_shr(a, b as u32))
        } else {
            None
        },
        _ => None,
    }
}

/// A unary operator of a pattern expression; `None` for the negation of the least value or
/// an operator that is not unary.
pub open spec fn spec_unop(op: ExprOp, a: i64) -> Option<i64> {
    match op {
        ExprOp::Not => Some(!a),
        ExprOp::Minus => if a == i64::MIN {
            None
        } else {
            Some((-a) as i64)
        },
        _ => None,
    }
}

/// The value of a context field: its bits read from the context word holding its start
/// bit, with its width in whole bytes.
pub open spec fn spec_ctx_field_value(cf: ContextField, ctx: Seq<u32>) -> Option<(i64, usize, Option<FixupType>)> {
    if cf.start_bit / 32 >= ctx.len() || cf.end_bit < cf.start_bit || cf.end_bit - cf.start_bit + 1
        > u32::MAX || cf.end_bit + 1 > 32 {
        None
    } else {
        let size = (cf.end_bit - cf.start_bit + 1) as u32;
        let bit_start = (32 - (cf.start_bit + size)) as u32;
        match spec_bits32(ctx[(cf.start_bit / 32) as int], bit_start as int, size as int) {
            Some(v) => Some((v as i64, (size / 8) as usize, None)),
            None => None,
        }
    }
}

/// The value, size in bytes and fixup of a pattern expression over the context and the
/// operands resolved so far; `None` where it cannot be evaluated.
pub open spec fn spec_eval(expr: Expr, ctx: Seq<u32>, ops: Seq<(MatchedView, Option<FixupType>)>) -> Option<(i64, usize, Option<FixupType>)>
    decreases expr,
{
    match expr {
        Expr::Const(v) => Some((v, 8usize, None)),
        Expr::Operand(oe) => if (oe.idx as int) < ops.len() {
            match ops[oe.idx as int].0 {
                MatchedView::Literal(v, sz) => Some((spec_signed_of(v, sz), sz, None)),
                MatchedView::Symbol(sym, idx) => if sym.body is Varnode {
                    Some((idx as i64, 8usize, None))
                } else {
                    None
                },
                _ => None,
            }
        } else {
            None
        },
        Expr::Binary((op, l, r)) => match (spec_eval(*l, ctx, ops), spec_eval(*r, ctx, ops)) {
            (Some(a), Some(b)) => match spec_binop(op, a.0, b.0) {
                Some(v) => Some(
                    (
                        v,
                        if a.1 >= b.1 {
                            a.1
                        } else {
                            b.1
                        },
                        if a.2 is Some {
                            a.2
                        } else {
                            b.2
                        },
                    ),
                ),
                None => None,
            },
            _ => None,
        },
        Expr::Unary((op, h)) => match spec_eval(*h, ctx, ops) {
            Some(a) => match spec_unop(op, a.0) {
                Some(v) => Some((v, a.1, a.2)),
                None => None,
            },
            None => None,
        },
        Expr::Field(Field::Context(cf)) => spec_ctx_field_value(cf, ctx),
        Expr::Start => Some((0, 8usize, Some(FixupType::Start))),
        Expr::End => Some((0, 8usize, Some(FixupType::End))),
        _ => None,
    }
}

fn binop(op: ExprOp, a: i64, b: i64) -> (r: Option<i64>)
    ensures
        r == spec_binop(op, a, b),
{
    match op {
        ExprOp::Xor => Some(a ^ b),
        ExprOp::Add => a.checked_add(b),
        ExprOp::Sub => a.checked_sub(b),
        ExprOp::Mult => Some(a.wrapping_mul(b)),
        ExprOp::And => Some(a & b),
        ExprOp::Or => Some(a | b),
        ExprOp::Lshift => {
            if (b as u32) >= 64 {
                Some(0)
            } else {
                Some(a.wrapping_shl(b as u32))
            }
        },
        ExprOp::Rshift => {
            if 0 <= b && b < 64 {
                Some(a.wrapping_shr(b as u32))
            } else {
                None
            }
        },
        _ => None,
    }
}

/// Evaluates a pattern expression (see `spec_eval`).
pub fn evaluate_expr<'a>(expr: &Expr, ctx: &Vec<u32>, operands: &Vec<(MatchedSymbol<'a>, Option<FixupType>)>) -> (r: Option<(i64, usize, Option<FixupType>)>)
    ensures
        r == spec_eval(*expr, ctx@, view_operands(operands@)),
    decreases expr,
{
    proof {
        lemma_view_operands(operands@);
    }
    match expr {
        Expr::Const(val) => Some((*val, 8, None)),
        Expr::Operand(op_expr) => {
            if (op_expr.idx as usize) < operands.len() {
                match &operands[op_expr.idx as usize].0 {
                    MatchedSymbol::Literal((val, sz)) => {
                        let v = *val;
                        let signed_val: i64 = if *sz == 1 {
                            (v as i8) as i64
                        } else if *sz == 2 {
                            (v as i16) as i64
                        } else if *sz == 4 {
                            (v as i32) as i64
                        } else {
                            v
                        };
                        Some((signed_val, *sz, None))
                    },
                    MatchedSymbol::Symbol(sym, idx) => {
                        if let SymbolBody::Varnode(_) = &sym.body {
                            Some((*idx as i64, 8, None))
                        } else {
                            None
                        }
                    },
                    _ => None,
                }
            } else {
                None
            }
        },
        Expr::Binary((op, lhs, rhs)) => {
            let l = evaluate_expr(&**lhs, ctx, operands);
            let r = evaluate_expr(&**rhs, ctx, operands);
            match (l, r) {
                (Some((lv, ls, lf)), Some((rv, rs, rf))) => match binop(*op, lv, rv) {
                    Some(v) => Some(
                        (
                            v,
                            if ls >= rs {
                                ls
                            } else {
                                rs
                            },
                            if lf.is_some() {
                                lf
                            } else {
                                rf
                            },
                        ),
                    ),
                    None => None,
                },
                _ => None,
            }
        },
        Expr::Unary((op, hs)) => {
            match evaluate_expr(&**hs, ctx, operands) {
                Some((v, sz, f)) => {
                    let res = match op {
                        ExprOp::Not => Some(!v),
                        ExprOp::Minus => if v == i64::MIN {
                            None
                        } else {
                            Some(-v)
                        },
                        _ => None,
                    };
                    match res {
                        Some(x) => Some((x, sz, f)),
                        None => None,
                    }
                },
                None => None,
            }
        },
        Expr::Field(Field::Context(cf)) => {
            if (cf.start_bit / 32) as usize >= ctx.len() || cf.end_bit < cf.start_bit || cf.end_bit
                - cf.start_bit == u32::MAX || cf.end_bit >= 32 {
                return None;
            }
            let size: u32 = cf.end_bit - cf.start_bit + 1;
            let bit_start: u32 = 32 - (cf.start_bit + size);
            match bits32(ctx[(cf.start_bit / 32) as usize], bit_start, size) {
                Some(v) => Some((v as i64, (size / 8) as usize, None)),
                None => None,
            }
        },
        Expr::Start => Some((0, 8, Some(FixupType::Start))),
        Expr::End => Some((0, 8, Some(FixupType::End))),
        _ => None,
    }
}

/// How deep subtables may nest while one instruction is resolved.
pub const MAX_RESOLVE_DEPTH: usize = 256;

/// The context after a constructor's context changes from position `k` on: word `op.i`
/// keeps its bits outside `op.mask` and takes those of the value of `op.expr` (over the
/// operands resolved so far) shifted left by `op.shift` inside. `None` where a word or
/// shift is out of range or an expression cannot be evaluated.
pub open spec fn spec_apply_ctx_ops(cops: Seq<ContextOp>, k: int, ctx: Seq<u32>, ops: Seq<(MatchedView, Option<FixupType>)>) -> Option<Seq<u32>>
    decreases cops.len() - k,
{
    if k < 0 || k >= cops.len() {
        Some(ctx)
    } else {
        let op = cops[k];
        if op.i >= ctx.len() || op.shift >= 32 {
            None
        } else {
            match spec_eval(op.expr, ctx, ops) {
                None => None,
                Some((val, _, _)) => {
                    let v = ((val as u32) << op.shift) as u32;
                    spec_apply_ctx_ops(cops, k + 1, ctx.update(op.i as int, (ctx[op.i as int] & !op.mask) | (v & op.mask)), ops)
                },
            }
        }
    }
}

/// The state of resolving a constructor's operands: the operands so far, the bit each
/// reached, the bit the last token field reached, the furthest bit reached, the context,
/// and whether every sub-symbol so far resolved.
pub type OperandsState = (Seq<(MatchedView, Option<FixupType>)>, Seq<usize>, usize, usize, Seq<u32>, bool);

/// What a token field operand resolves to at the instruction bytes: its value as a literal
/// of its bytes' width, and the bit it reaches. `base` is the bit that the operand it is
/// relative to reached, if any.
pub open spec fn spec_token_operand(expr: TokenField, base_end: Option<usize>, words: Seq<u8>) -> Option<(i64, usize, usize)> {
    if expr.end_bit < expr.start_bit || expr.end_bit - expr.start_bit == u32::MAX {
        None
    } else {
        let size: u32 = (expr.end_bit - expr.start_bit + 1) as u32;
        match spec_num_bytes(expr.start_byte, expr.end_byte) {
            None => None,
            Some(nb) => {
                let sb: int = match base_end {
                    Some(e) => expr.start_byte + e / 8,
                    None => expr.start_byte as int,
                };
                if sb > usize::MAX {
                    None
                } else {
                    let k = spec_avail(words.len(), sb as nat, nb);
                    if !expr.big_endian && k > 8 {
                        None
                    } else {
                        let word: u64 = if !expr.big_endian { spec_le(words, sb, k) } else { spec_be(words, sb, k) };
                        let mask: u64 = if size >= 64 { u64::MAX } else { ((1u64 << size) - 1) as u64 };
                        let val = ((word >> ((expr.start_bit % 8) as u32)) & mask) as i64;
                        if sb > (usize::MAX - size) / 8 {
                            None
                        } else {
                            Some((val, nb as usize, (sb * 8 + size) as usize))
                        }
                    }
                }
            },
        }
    }
}

/// What a context field operand resolves to: its bits of the context word holding its start
/// bit, as a literal of its bytes' width.
pub open spec fn spec_context_operand(expr: ContextField, ctx: Seq<u32>) -> Option<(i64, usize)> {
    if expr.end_bit < expr.start_bit || expr.end_bit - expr.start_bit == u32::MAX || expr.end_bit >= 32
        || expr.start_bit / 32 >= ctx.len() {
        None
    } else {
        let size = (expr.end_bit - expr.start_bit + 1) as u32;
        let bit_start = (32 - (expr.start_bit + size)) as u32;
        match (spec_bits32(ctx[(expr.start_bit / 32) as int], bit_start as int, size as int), spec_num_bytes(expr.start_byte, expr.end_byte)) {
            (Some(v), Some(nb)) => Some((v as i64, nb as usize)),
            _ => None,
        }
    }
}

/// The operands of constructor `ct` from position `n` on resolved in turn (see `st` for
/// the state): a token field is read from the instruction bytes (relative to the bit that
/// the operand it is based on reached), a context field from the context, an expression is
/// evaluated over the operands before it, a constant taken as it is; a sub-symbol is
/// resolved recursively (see `spec_resolve_sym`) at the byte its offset or base gives,
/// after the constructor's context changes (see `spec_apply_ctx_ops`). A sub-symbol that
/// does not resolve adds no operand and no bit end, and clears the last flag; the operands
/// after it are resolved all the same, in the context it left. Gives the operands, the
/// furthest bit reached, the context, and whether every sub-symbol resolved. Where an
/// operand cannot be read at all (a missing symbol or base operand, bytes or context bits
/// out of range, an expression that does not evaluate, an overflow), it stops there with
/// what it has and the flag cleared.
pub open spec fn spec_resolve_operands(words: Seq<u8>, pc: u64, ct: Constructor, lang: SleighLanguage, depth: int, n: int, st: OperandsState) -> (Seq<(MatchedView, Option<FixupType>)>, usize, Seq<u32>, bool)
    decreases MAX_RESOLVE_DEPTH - depth, 0int, ct.operands@.len() - n,
{
    let (ops, ends, bit_end, total, ctx, ok) = st;
    let stop = (ops, total, ctx, false);
    if depth < 0 || depth >= MAX_RESOLVE_DEPTH {
        stop
    } else if n < 0 || n >= ct.operands@.len() {
        (ops, total, ctx, ok)
    } else {
        let id = ct.operands@[n];
        if !(lang.symbols@.contains_key(id) && lang.symbols@[id].body is Operand) {
            stop
        } else {
            let operand = lang.symbols@[id].body->Operand_0;
            let base_end: Option<Option<usize>> = if operand.base >= 0 {
                if operand.base >= ends.len() { None } else { Some(Some(ends[operand.base as int])) }
            } else {
                Some(None)
            };
            match operand.expr {
                Some(Expr::Field(Field::Token(expr))) => match base_end {
                    None => stop,
                    Some(be) => match spec_token_operand(expr, be, words) {
                        None => stop,
                        Some((val, nb, e)) => spec_resolve_operands(words, pc, ct, lang, depth, n + 1,
                            (ops.push((MatchedView::Literal(val, nb), None)), ends.push(e), e, if e > total { e } else { total }, ctx, ok)),
                    },
                },
                Some(Expr::Field(Field::Context(expr))) => match spec_context_operand(expr, ctx) {
                    None => stop,
                    Some((val, nb)) => spec_resolve_operands(words, pc, ct, lang, depth, n + 1,
                        (ops.push((MatchedView::Literal(val, nb), None)), ends.push(0usize), bit_end, total, ctx, ok)),
                },
                Some(Expr::Unary(_)) | Some(Expr::Binary(_)) => match spec_eval(operand.expr.unwrap(), ctx, ops) {
                    None => stop,
                    Some((val, sz, fixup)) => spec_resolve_operands(words, pc, ct, lang, depth, n + 1,
                        (ops.push((MatchedView::Literal(val, sz), fixup)), ends.push(0usize), bit_end, total, ctx, ok)),
                },
                Some(Expr::Const(val)) => spec_resolve_operands(words, pc, ct, lang, depth, n + 1,
                    (ops.push((MatchedView::Literal(val, 8usize), None)), ends.push(0usize), bit_end, total, ctx, ok)),
                None => if !lang.symbols@.contains_key(operand.subsym) {
                    stop
                } else {
                    let base: Option<int> = match base_end {
                        None => None,
                        Some(Some(e)) => Some((e / 8) as int),
                        Some(None) => if operand.off > usize::MAX { None } else { Some(operand.off as int) },
                    };
                    match base {
                        None => stop,
                        Some(base) => match spec_apply_ctx_ops(ct.context_ops@, 0, ctx, ops) {
                            None => stop,
                            Some(ctx1) => if base > words.len() || pc + base > u64::MAX {
                                (ops, total, ctx1, false)
                            } else {
                                match spec_resolve_sym(words.subrange(base, words.len() as int), (pc + base) as u64, lang.symbols@[operand.subsym], lang, ctx1, depth + 1) {
                                    (None, ctx2) => spec_resolve_operands(words, pc, ct, lang, depth, n + 1,
                                        (ops, ends, bit_end, total, ctx2, false)),
                                    (Some((m, sub_end)), ctx2) => if base * 8 + sub_end > usize::MAX {
                                        (ops, total, ctx2, false)
                                    } else {
                                        let reach = base * 8 + sub_end;
                                        let e: usize = if bit_end > reach { bit_end } else { reach as usize };
                                        spec_resolve_operands(words, pc, ct, lang, depth, n + 1,
                                            (ops.push((m, None)), ends.push(e), bit_end, if e > total { e } else { total }, ctx2, ok))
                                    },
                                }
                            },
                        },
                    }
                },
                _ => stop,
            }
        }
    }
}

/// What a symbol resolves to at the start of the instruction bytes `words` (at address
/// `pc`) in context `ctx`: the resolved value and its length in bits, if it resolves, and
/// the context after the attempt. A subtable picks its constructor (see
/// `spec_resolve_ctor`) and resolves the constructor's operands (see
/// `spec_resolve_operands`), its length the larger of the constructor's and the furthest
/// bit its operands reached; it does not resolve where no constructor matches, an operand
/// does not, or subtables nest `MAX_RESOLVE_DEPTH` deep. A varlist, value map or name table
/// reads its field (see `spec_varlist_result`, `spec_valuemap_read`, `spec_nametab_read`);
/// a varnode is itself with length 0. Only a subtable's operands change the context.
pub open spec fn spec_resolve_sym(words: Seq<u8>, pc: u64, sym: Symbol, lang: SleighLanguage, ctx: Seq<u32>, depth: int) -> (Option<(MatchedView, usize)>, Seq<u32>)
    decreases MAX_RESOLVE_DEPTH - depth, 1int, 0int,
{
    match sym.body {
        SymbolBody::Subtable(t) => if depth < 0 || depth >= MAX_RESOLVE_DEPTH {
            (None, ctx)
        } else {
            match spec_resolve_ctor(t, words, ctx) {
                None => (None, ctx),
                Some(ci) => {
                    let ct = t.constructors@[ci];
                    let (ops, total, ctx2, ok) = spec_resolve_operands(words, pc, ct, lang, depth, 0, (Seq::empty(), Seq::empty(), 0usize, 0usize, ctx, true));
                    if ok {
                        let own = (ct.length * 8) as usize;
                        (Some((MatchedView::Constructor(ct, ops), if own > total { own } else { total })), ctx2)
                    } else {
                        (None, ctx2)
                    }
                },
            }
        },
        SymbolBody::Varlist(v) => match spec_varlist_result(lang, v, words) {
            Some((id, idx, e)) => (Some((MatchedView::Symbol(lang.symbols@[id], idx as usize), e as usize)), ctx),
            None => (None, ctx),
        },
        SymbolBody::Valuemap(vm) => match spec_valuemap_read(vm.field, words) {
            Some((idx, size, e)) => if idx < vm.vars@.len() {
                (Some((MatchedView::Literal(vm.vars@[idx] as i64, size as usize), e as usize)), ctx)
            } else {
                (None, ctx)
            },
            None => (None, ctx),
        },
        SymbolBody::Varnode(_) => (Some((MatchedView::Symbol(sym, 0), 0)), ctx),
        SymbolBody::Nametab(nt) => match spec_nametab_read(nt.field, words) {
            Some((idx, e)) => if idx < nt.names@.len() && nt.names@[idx] is Some {
                (Some((MatchedView::String(nt.names@[idx].unwrap()@), e as usize)), ctx)
            } else {
                (None, ctx)
            },
            None => (None, ctx),
        },
        _ => (None, ctx),
    }
}


/// The operand symbol with id `id`, if the language has one.
fn get_operand<'a>(id: u32, lang: &'a SleighLanguage) -> (r: Option<&'a Operand>)
    ensures
        match r {
            Some(o) => lang.symbols@.contains_key(id) && lang.symbols@[id].body == SymbolBody::Operand(*o),
            None => !(lang.symbols@.contains_key(id) && lang.symbols@[id].body is Operand),
        },
{
    match get_symbol(lang, id) {
        Some(sym) => match &sym.body {
            SymbolBody::Operand(operand) => Some(operand),
            _ => None,
        },
        None => None,
    }
}

/// Reads a token field operand (see `spec_token_operand`).
fn token_operand(expr: &TokenField, base_end: Option<usize>, words: &[u8]) -> (r: Option<(i64, usize, usize)>)
    ensures
        r == spec_token_operand(*expr, base_end, words@),
{
    if expr.end_bit < expr.start_bit || expr.end_bit - expr.start_bit == u32::MAX {
        return None;
    }
    let size: u32 = expr.end_bit - expr.start_bit + 1;
    let nb = match num_bytes(expr.start_byte, expr.end_byte) {
        Some(x) => x,
        None => return None,
    };
    let mut sb: usize = expr.start_byte as usize;
    if let Some(e) = base_end {
        let add = e / 8;
        if sb > usize::MAX - add {
            return None;
        }
        sb = sb + add;
    }
    let word = if !expr.big_endian {
        let avail: usize = if sb >= words.len() {
            0
        } else if nb <= words.len() - sb {
            nb
        } else {
            words.len() - sb
        };
        if avail > 8 {
            return None;
        }
        get_word_le(words, sb, nb)
    } else {
        get_word(words, sb, nb)
    };
    assert(size < 64 ==> (1u64 << size) >= 1) by (bit_vector);
    let mask: u64 = if size >= 64 {
        u64::MAX
    } else {
        (1u64 << size) - 1
    };
    let start_bit: u32 = expr.start_bit % 8;
    let val = ((word >> start_bit) & mask) as i64;
    if sb > (usize::MAX - size as usize) / 8 {
        return None;
    }
    Some((val, nb, sb * 8 + (size as usize)))
}

/// Reads a context field operand (see `spec_context_operand`).
fn context_operand(expr: &ContextField, ctx: &Vec<u32>) -> (r: Option<(i64, usize)>)
    ensures
        r == spec_context_operand(*expr, ctx@),
{
    if expr.end_bit < expr.start_bit || expr.end_bit - expr.start_bit == u32::MAX
        || expr.end_bit >= 32 || (expr.start_bit / 32) as usize >= ctx.len() {
        return None;
    }
    let size: u32 = expr.end_bit - expr.start_bit + 1;
    let bit_start: u32 = 32 - (expr.start_bit + size);
    let val = match bits32(ctx[(expr.start_bit / 32) as usize], bit_start, size) {
        Some(v) => v,
        None => return None,
    };
    let nb = match num_bytes(expr.start_byte, expr.end_byte) {
        Some(x) => x,
        None => return None,
    };
    Some((val as i64, nb))
}

/// Applies a constructor's context changes before one of its operands is resolved (see
/// `spec_apply_ctx_ops`). Returns whether all of them could be applied.
fn apply_context_ops<'a>(ct: &Constructor, ctx: &mut Vec<u32>, matched_ops: &Vec<(MatchedSymbol<'a>, Option<FixupType>)>) -> (ok: bool)
    ensures
        final(ctx)@.len() == old(ctx)@.len(),
        match spec_apply_ctx_ops(ct.context_ops@, 0, old(ctx)@, view_operands(matched_ops@)) {
            Some(c) => ok && final(ctx)@ == c,
            None => !ok,
        },
{
    let ghost vops = view_operands(matched_ops@);
    let mut k: usize = 0;
    while k < ct.context_ops.len()
        invariant
            k <= ct.context_ops@.len(),
            ctx@.len() == old(ctx)@.len(),
            vops == view_operands(matched_ops@),
            spec_apply_ctx_ops(ct.context_ops@, 0, old(ctx)@, vops) == spec_apply_ctx_ops(ct.context_ops@, k as int, ctx@, vops),
        decreases ct.context_ops@.len() - k,
    {
        let op = &ct.context_ops[k];
        if op.i as usize >= ctx.len() || op.shift >= 32 {
            return false;
        }
        let existing = ctx[op.i as usize];
        let val = match evaluate_expr(&op.expr, ctx, matched_ops) {
            Some((v, _, _)) => v,
            None => return false,
        };
        let v: u32 = (val as u32) << op.shift;
        ctx.set(op.i as usize, (existing & !op.mask) | (v & op.mask));
        k = k + 1;
    }
    true
}

/// Resolves the operands of a matched constructor in order (see `spec_resolve_operands`).
/// Returns the operands, the furthest bit reached, and whether every sub-symbol resolved.
fn resolve_operands<'a>(words: &[u8], pc: u64, ct: &'a Constructor, lang: &'a SleighLanguage, ctx: &mut Vec<u32>, depth: usize) -> (r: (Vec<(MatchedSymbol<'a>, Option<FixupType>)>, usize, bool))
    requires
        depth < MAX_RESOLVE_DEPTH,
    ensures
        final(ctx)@.len() == old(ctx)@.len(),
        (view_operands(r.0@), r.1, final(ctx)@, r.2)
            == spec_resolve_operands(words@, pc, *ct, *lang, depth as int, 0, (Seq::empty(), Seq::empty(), 0usize, 0usize, old(ctx)@, true)),
    decreases MAX_RESOLVE_DEPTH - depth, 0int, ct.operands@.len(),
{
    let mut matched_ops: Vec<(MatchedSymbol<'a>, Option<FixupType>)> = Vec::new();
    let mut bit_ends: Vec<usize> = Vec::new();
    let mut bit_end: usize = 0;
    let mut total_bit_end: usize = 0;
    let mut ok = true;
    let mut n: usize = 0;
    assert(view_operands(matched_ops@) =~= Seq::<(MatchedView, Option<FixupType>)>::empty());
    assert(bit_ends@ =~= Seq::<usize>::empty());
    while n < ct.operands.len()
        invariant
            n <= ct.operands@.len(),
            ctx@.len() == old(ctx)@.len(),
            depth < MAX_RESOLVE_DEPTH,
            spec_resolve_operands(words@, pc, *ct, *lang, depth as int, 0, (Seq::empty(), Seq::empty(), 0usize, 0usize, old(ctx)@, true))
                == spec_resolve_operands(words@, pc, *ct, *lang, depth as int, n as int, (view_operands(matched_ops@), bit_ends@, bit_end, total_bit_end, ctx@, ok)),
        decreases ct.operands@.len() - n,
    {
        let ghost vops = view_operands(matched_ops@);
        let operand = match get_operand(ct.operands[n], lang) {
            Some(o) => o,
            None => return (matched_ops, total_bit_end, false),
        };
        let ghost before_ops = matched_ops@;
        let mut pushed = true;
        match &operand.expr {
            Some(Expr::Field(Field::Token(expr))) => {
                let be: Option<usize> = if operand.base >= 0 {
                    if operand.base as u64 >= bit_ends.len() as u64 {
                        return (matched_ops, total_bit_end, false);
                    }
                    Some(bit_ends[operand.base as usize])
                } else {
                    None
                };
                match token_operand(expr, be, words) {
                    Some((val, nb, e)) => {
                        bit_end = e;
                        if e > total_bit_end {
                            total_bit_end = e;
                        }
                        matched_ops.push((MatchedSymbol::Literal((val, nb)), None));
                        bit_ends.push(e);
                    },
                    None => return (matched_ops, total_bit_end, false),
                }
            },
            Some(Expr::Field(Field::Context(expr))) => {
                match context_operand(expr, ctx) {
                    Some((val, nb)) => {
                        matched_ops.push((MatchedSymbol::Literal((val, nb)), None));
                        bit_ends.push(0);
                    },
                    None => return (matched_ops, total_bit_end, false),
                }
            },
            Some(Expr::Unary(_)) | Some(Expr::Binary(_)) => {
                let e = match &operand.expr {
                    Some(e) => e,
                    None => return (matched_ops, total_bit_end, false),
                };
                match evaluate_expr(e, ctx, &matched_ops) {
                    Some((val, sz, fixup_type)) => {
                        matched_ops.push((MatchedSymbol::Literal((val, sz)), fixup_type));
                        bit_ends.push(0);
                    },
                    None => return (matched_ops, total_bit_end, false),
                }
            },
            Some(Expr::Const(val)) => {
                matched_ops.push((MatchedSymbol::Literal((*val, 8)), None));
                bit_ends.push(0);
            },
            None => {
                let op_sym = match get_symbol(lang, operand.subsym) {
                    Some(s) => s,
                    None => return (matched_ops, total_bit_end, false),
                };
                let base: usize = if operand.base < 0 {
                    if operand.off > usize::MAX as u64 {
                        return (matched_ops, total_bit_end, false);
                    }
                    operand.off as usize
                } else {
                    if operand.base as u64 >= bit_ends.len() as u64 {
                        return (matched_ops, total_bit_end, false);
                    }
                    bit_ends[operand.base as usize] / 8
                };
                let mut ctx1 = ctx.clone();
                assert(ctx1@ =~= ctx@);
                if !apply_context_ops(ct, &mut ctx1, &matched_ops) {
                    return (matched_ops, total_bit_end, false);
                }
                *ctx = ctx1;
                if base > words.len() || pc > u64::MAX - base as u64 {
                    return (matched_ops, total_bit_end, false);
                }
                let sub_words = vstd::slice::slice_subrange(words, base, words.len());
                match _resolve_symbol(sub_words, pc + base as u64, op_sym, lang, ctx, depth + 1) {
                    Some((matched_sym, sub_bit_end)) => {
                        if base > (usize::MAX - sub_bit_end) / 8 {
                            return (matched_ops, total_bit_end, false);
                        }
                        let reach = base * 8 + sub_bit_end;
                        let new_bit_end = if bit_end > reach {
                            bit_end
                        } else {
                            reach
                        };
                        matched_ops.push((matched_sym, None));
                        bit_ends.push(new_bit_end);
                        if new_bit_end > total_bit_end {
                            total_bit_end = new_bit_end;
                        }
                    },
                    None => {
                        ok = false;
                        pushed = false;
                    },
                }
            },
            _ => return (matched_ops, total_bit_end, false),
        }
        proof {
            if pushed {
                lemma_view_operands_push(before_ops, matched_ops@.last());
                assert(matched_ops@ =~= before_ops.push(matched_ops@.last()));
            }
        }
        n = n + 1;
    }
    (matched_ops, total_bit_end, ok)
}

/// Resolves a symbol at the start of `words` (see `spec_resolve_sym`): a subtable through
/// its decision tree and the matched constructor's operands, a varlist, value map or name
/// table through its field, a varnode as itself. Returns what it resolved to and its
/// length in bits.
pub fn _resolve_symbol<'a>(words: &[u8], pc: u64, sym: &'a Symbol, lang: &'a SleighLanguage, ctx: &mut Vec<u32>, depth: usize) -> (r: Option<(MatchedSymbol<'a>, usize)>)
    ensures
        final(ctx)@.len() == old(ctx)@.len(),
        final(ctx)@ == spec_resolve_sym(words@, pc, *sym, *lang, old(ctx)@, depth as int).1,
        match spec_resolve_sym(words@, pc, *sym, *lang, old(ctx)@, depth as int).0 {
            Some((m, b)) => r is Some && view_matched(r.unwrap().0) == m && r.unwrap().1 == b,
            None => r is None,
        },
    decreases MAX_RESOLVE_DEPTH - depth, 1int, 0int,
{
    match &sym.body {
        SymbolBody::Subtable(table) => {
            if depth >= MAX_RESOLVE_DEPTH {
                return None;
            }
            match resolve_constructor(words, table, ctx) {
                Some((ct, bit_end)) => {
                    let (operands, ops_bit_end, ok) = resolve_operands(words, pc, ct, lang, ctx, depth);
                    let bit_len = if bit_end > ops_bit_end {
                        bit_end
                    } else {
                        ops_bit_end
                    };
                    if ok {
                        let r = MatchedSymbol::Constructor((ct, operands));
                        assert(view_matched(r) == MatchedView::Constructor(*ct, view_operands(operands@)));
                        Some((r, bit_len))
                    } else {
                        None
                    }
                },
                None => None,
            }
        },
        SymbolBody::Varlist(varlist) => resolve_varlist(words, varlist, lang),
        SymbolBody::Valuemap(valuemap) => resolve_valuemap(words, valuemap),
        SymbolBody::Varnode(_) => Some((MatchedSymbol::Symbol(sym, 0), 0)),
        SymbolBody::Nametab(nametab) => resolve_nametab(words, nametab),
        _ => None,
    }
}

/// A literal relative to the instruction: its value plus the instruction's address (for a
/// start fixup) or plus the address just past it (for an end fixup), wrapping on overflow.
pub open spec fn spec_fixed_value(val: i64, fixup: Option<FixupType>, pc: u64, bit_len: usize) -> i64 {
    match fixup {
        Some(FixupType::Start) => vstd::wrapping::i64_specs::wrapping_add(val, pc as i64),
        Some(FixupType::End) => vstd::wrapping::i64_specs::wrapping_add(
            val,
            vstd::wrapping::usize_specs::wrapping_add(pc as usize, bit_len / 8) as i64,
        ),
        None => val,
    }
}

/// A resolved value with its literals made absolute: a literal is fixed up by `fixup` (see
/// `spec_fixed_value`), a constructor's operands each by the fixup recorded with it.
pub open spec fn spec_fix_view(m: MatchedView, fixup: Option<FixupType>, pc: u64, bit_len: usize) -> MatchedView
    decreases m, 0int,
{
    match m {
        MatchedView::Literal(v, sz) => MatchedView::Literal(spec_fixed_value(v, fixup, pc, bit_len), sz),
        MatchedView::Constructor(c, ops) => {
            proof {
                assert(decreases_to!(m => ops));
            }
            MatchedView::Constructor(c, spec_fix_views(ops, pc, bit_len))
        },
        _ => m,
    }
}

/// Resolved operands with their literals made absolute (see `spec_fix_view`).
pub open spec fn spec_fix_views(ops: Seq<(MatchedView, Option<FixupType>)>, pc: u64, bit_len: usize) -> Seq<(MatchedView, Option<FixupType>)>
    decreases ops, ops.len(),
{
    if ops.len() == 0 {
        Seq::empty()
    } else {
        proof {
            assert(decreases_to!(ops => ops[ops.len() - 1]));
            assert(decreases_to!(ops[ops.len() - 1] => ops[ops.len() - 1].0));
            assert(decreases_to!(ops => ops.subrange(0, ops.len() - 1)));
        }
        spec_fix_views(ops.subrange(0, ops.len() - 1), pc, bit_len).push(
            (spec_fix_view(ops[ops.len() - 1].0, ops[ops.len() - 1].1, pc, bit_len), ops[ops.len() - 1].1),
        )
    }
}

proof fn lemma_fix_views(ops: Seq<(MatchedView, Option<FixupType>)>, pc: u64, bit_len: usize)
    ensures
        spec_fix_views(ops, pc, bit_len).len() == ops.len(),
        forall|i: int| 0 <= i < ops.len() ==> #[trigger] spec_fix_views(ops, pc, bit_len)[i] == (spec_fix_view(ops[i].0, ops[i].1, pc, bit_len), ops[i].1),
    decreases ops.len(),
{
    if ops.len() > 0 {
        let pre = ops.subrange(0, ops.len() - 1);
        lemma_fix_views(pre, pc, bit_len);
        assert forall|i: int| 0 <= i < ops.len() implies #[trigger] spec_fix_views(ops, pc, bit_len)[i] == (spec_fix_view(ops[i].0, ops[i].1, pc, bit_len), ops[i].1) by {
            if i < ops.len() - 1 {
                assert(pre[i] == ops[i]);
            }
        }
    }
}

/// Makes the literals of a resolved symbol absolute (see `spec_fix_view`).
pub fn apply_fixups<'a>(matched_sym: MatchedSymbol<'a>, fixup_type: Option<FixupType>, pc: u64, bit_len: usize) -> (r: MatchedSymbol<'a>)
    ensures
        view_matched(r) == spec_fix_view(view_matched(matched_sym), fixup_type, pc, bit_len),
    decreases matched_sym,
{
    match matched_sym {
        MatchedSymbol::Constructor((ct, operands)) => {
            let ghost old_ops = operands@;
            let ghost ops_vec = operands;
            let ghost pair = (ct, operands);
            proof {
                assert(decreases_to!(matched_sym => pair));
                assert(decreases_to!(pair => ops_vec));
                assert(decreases_to!(ops_vec => old_ops));
                lemma_view_operands(old_ops);
            }
            let mut rest = operands;
            let mut rev: Vec<(MatchedSymbol<'a>, Option<FixupType>)> = Vec::new();
            while rest.len() > 0
                invariant
                    decreases_to!(matched_sym => old_ops),
                    rest@.len() + rev@.len() == old_ops.len(),
                    forall|i: int| 0 <= i < rest@.len() ==> rest@[i] == old_ops[i],
                    forall|i: int| 0 <= i < rev@.len() ==> #[trigger] rev@[i].1 == old_ops[old_ops.len() - 1 - i].1
                        && view_matched(rev@[i].0) == spec_fix_view(view_matched(old_ops[old_ops.len() - 1 - i].0), old_ops[old_ops.len() - 1 - i].1, pc, bit_len),
                decreases rest@.len(),
            {
                let ghost k = rest@.len() - 1;
                let (oper, t) = rest.pop().unwrap();
                proof {
                    assert(oper == old_ops[k].0);
                    assert(decreases_to!(old_ops => old_ops[k]));
                    assert(decreases_to!(old_ops[k] => old_ops[k].0));
                }
                let fixed = apply_fixups(oper, t, pc, bit_len);
                rev.push((fixed, t));
            }
            let mut fixed_ops: Vec<(MatchedSymbol<'a>, Option<FixupType>)> = Vec::new();
            while rev.len() > 0
                invariant
                    rev@.len() + fixed_ops@.len() == old_ops.len(),
                    forall|i: int| 0 <= i < rev@.len() ==> #[trigger] rev@[i].1 == old_ops[old_ops.len() - 1 - i].1
                        && view_matched(rev@[i].0) == spec_fix_view(view_matched(old_ops[old_ops.len() - 1 - i].0), old_ops[old_ops.len() - 1 - i].1, pc, bit_len),
                    forall|i: int| 0 <= i < fixed_ops@.len() ==> #[trigger] fixed_ops@[i].1 == old_ops[i].1
                        && view_matched(fixed_ops@[i].0) == spec_fix_view(view_matched(old_ops[i].0), old_ops[i].1, pc, bit_len),
                decreases rev@.len(),
            {
                let ghost j = rev@.len() - 1;
                assert(rev@[j].1 == old_ops[old_ops.len() - 1 - j].1);
                let x = rev.pop().unwrap();
                fixed_ops.push(x);
            }
            proof {
                let vo = view_operands(old_ops);
                lemma_fix_views(vo, pc, bit_len);
                lemma_view_operands(fixed_ops@);
                assert(view_operands(fixed_ops@) =~= spec_fix_views(vo, pc, bit_len));
            }
            MatchedSymbol::Constructor((ct, fixed_ops))
        },
        MatchedSymbol::Literal((val, sz)) => {
            let v = match fixup_type {
                Some(FixupType::Start) => val.wrapping_add(pc as i64),
                Some(FixupType::End) => val.wrapping_add((pc as usize).wrapping_add(bit_len / 8) as i64),
                None => val,
            };
            MatchedSymbol::Literal((v, sz))
        },
        other => other,
    }
}

/// Resolves `sym` at the start of `words` for an instruction at `pc` (see
/// `spec_resolve_sym`), and makes the literals relative to the instruction absolute (see
/// `spec_fix_view`).
pub fn resolve_symbol<'a>(words: &[u8], pc: u64, sym: &'a Symbol, lang: &'a SleighLanguage, ctx: &mut Vec<u32>) -> (r: Option<(MatchedSymbol<'a>, usize)>)
    ensures
        final(ctx)@.len() == old(ctx)@.len(),
        final(ctx)@ == spec_resolve_sym(words@, pc, *sym, *lang, old(ctx)@, 0).1,
        match spec_resolve_sym(words@, pc, *sym, *lang, old(ctx)@, 0).0 {
            Some((m, b)) => r is Some && view_matched(r.unwrap().0) == spec_fix_view(m, None, pc, b)
                && r.unwrap().1 == b,
            None => r is None,
        },
{
    match _resolve_symbol(words, pc, sym, lang, ctx, 0) {
        Some((matched_sym, bit_len)) => {
            let fixed = apply_fixups(matched_sym, None, pc, bit_len);
            Some((fixed, bit_len))
        },
        None => None,
    }
}

} // verus!
