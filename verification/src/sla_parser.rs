//! The contents of a compiled SLEIGH specification (`.sla`): symbols, constructors,
//! decision trees and p-code templates, and the language built from them.
use vstd::prelude::*;
use std::collections::HashMap;
use crate::sleigh::address::AddressSpace;
use crate::sleigh::varnode::{Varnode, VarnodeMap, spec_map_lookup};
use crate::arch::Language;
use crate::text::{push_str, push_hex, push_dec, spec_hex, spec_dec, spec_join};

verus! {

/// One word of a pattern: the bits under `mask` must equal `val`.
#[derive(Clone, Debug)]
pub struct MaskWord {
    pub mask: u32,
    pub val: u32,
}

/// A run of mask words starting `offset` bytes into the instruction or context.
#[derive(Clone, Debug)]
pub struct PatternBlock {
    pub offset: u32,
    pub nonzero: u32,
    pub masks: Vec<MaskWord>,
}

/// The pattern a constructor's bits must match.
#[derive(Debug)]
pub enum DecisionPattern {
    Context(PatternBlock),
    Instruction(PatternBlock),
    Combine((Box<DecisionPattern>, Box<DecisionPattern>)),
}

/// A subtable's decision tree: inner nodes select a child by a bit field of the
/// instruction or of the context; leaves list candidate constructors with their patterns.
#[derive(Debug)]
pub enum DecisionTree {
    Leaf(Vec<(u32, DecisionPattern)>),
    NonLeaf((bool, u32, u32, Vec<DecisionTree>)),
}

/// An address space declared by the specification.
#[derive(Clone, Debug)]
pub struct Space {
    pub name: String,
    pub index: u32,
    pub big_endian: bool,
    pub delay: u32,
    pub size: u32,
    pub physical: bool,
}

/// A symbol scope.
#[derive(Clone, Debug)]
pub struct Scope {
    pub parent: u32,
}

/// The head of a symbol: its name and scope.
#[derive(Clone, Debug)]
pub struct SymbolHead {
    pub name: String,
    pub scope: u32,
}

/// A named varnode (a register, most often).
#[derive(Debug)]
pub struct VarnodeSym {
    pub name: String,
    pub scope: u32,
    pub space: AddressSpace,
    pub offset: u64,
    pub size: u64,
}

/// A value symbol: a field read as an integer.
#[derive(Debug)]
pub struct Value {
    pub name: String,
    pub scope: u32,
    pub field: Field,
}

/// A field whose value selects one of a list of varnode symbols.
#[derive(Debug)]
pub struct Varlist {
    pub name: String,
    pub scope: u32,
    pub field: Field,
    pub vars: Vec<Option<u32>>,
}

/// A field whose value selects one of a list of names.
#[derive(Debug)]
pub struct NameTable {
    pub name: String,
    pub scope: u32,
    pub field: Field,
    pub names: Vec<Option<String>>,
}

/// A field whose value selects one of a list of integers.
#[derive(Debug)]
pub struct Valuemap {
    pub name: String,
    pub scope: u32,
    pub field: Field,
    pub vars: Vec<u64>,
}

/// An operand of a constructor.
#[derive(Debug)]
pub struct Operand {
    pub name: String,
    pub scope: u32,
    pub subsym: u32,
    pub off: u64,
    pub base: i64,
    pub min_len: u64,
    pub idx: u64,
    pub is_code: bool,
    pub operand_expr: OperandExpr,
    pub expr: Option<Expr>,
}

/// A context variable: bits `low..=high` of the context register.
#[derive(Debug)]
pub struct Context {
    pub name: String,
    pub scope: u32,
    pub varnode: u32,
    pub low: u32,
    pub high: u32,
    pub flow: bool,
    pub context_field: ContextField,
}

/// A user-defined p-code operation.
#[derive(Debug)]
pub struct UserOp {
    pub name: String,
    pub scope: u32,
    pub idx: u32,
}

/// What a symbol is.
#[derive(Debug)]
pub enum SymbolBody {
    Scope(Scope),
    SymHead(SymbolHead),
    Subtable(Subtable),
    Varnode(VarnodeSym),
    Value(Value),
    Varlist(Varlist),
    Nametab(NameTable),
    Valuemap(Valuemap),
    Operand(Operand),
    Context(Context),
    UserOp(UserOp),
    Start(SymbolHead),
    End(SymbolHead),
    Next2(SymbolHead),
}

/// A symbol of the specification with its id.
#[derive(Debug)]
pub struct Symbol {
    pub id: u32,
    pub body: SymbolBody,
}

/// A table of constructors with the decision tree that picks one.
#[derive(Debug)]
pub struct Subtable {
    pub name: String,
    pub scope: u32,
    pub constructors: Vec<Constructor>,
    pub decision_tree: DecisionTree,
}

/// A bit field of the context register.
#[derive(Clone, Copy, Debug)]
pub struct ContextField {
    pub sign_bit: bool,
    pub start_bit: u32,
    pub end_bit: u32,
    pub start_byte: u32,
    pub end_byte: u32,
    pub shift: u32,
}

/// A bit field of the instruction bytes.
#[derive(Clone, Debug)]
pub struct TokenField {
    pub big_endian: bool,
    pub sign_bit: bool,
    pub start_bit: u32,
    pub end_bit: u32,
    pub start_byte: u32,
    pub end_byte: u32,
    pub shift: u32,
}

/// A field of the context or of the instruction.
#[derive(Clone, Debug)]
pub enum Field {
    Context(ContextField),
    Token(TokenField),
}

/// The operand an expression refers to.
#[derive(Clone, Debug)]
pub struct OperandExpr {
    pub idx: u32,
    pub table: u32,
    pub ct: u32,
}

/// The operators of pattern expressions.
#[derive(PartialEq, Eq, Structural, Clone, Copy, Debug)]
pub enum ExprOp {
    Not,
    Minus,
    Xor,
    Add,
    Sub,
    Lshift,
    Rshift,
    Mult,
    And,
    Or,
}

/// A pattern expression.
#[derive(Debug)]
pub enum Expr {
    Const(i64),
    Operand(OperandExpr),
    Field(Field),
    Unary((ExprOp, Box<Expr>)),
    Binary((ExprOp, Box<Expr>, Box<Expr>)),
    End,
    Start,
    Next2,
}

/// A constructor: its length in bytes, operands, display, context changes and p-code.
#[derive(Debug)]
pub struct Constructor {
    pub _parent: u32,
    pub _first: i32,
    pub length: u32,
    pub operands: Vec<u32>,
    pub print_commands: Option<Vec<PrintCommand>>,
    pub context_ops: Vec<ContextOp>,
    pub template: Option<ConstructorTemplate>,
    pub line: (usize, usize),
}

/// One piece of a constructor's display: an operand or a literal piece of text.
#[derive(Debug)]
pub enum PrintCommand {
    Op(u32),
    Piece(String),
}

/// A change to context word `i`: the bits under `mask` take the value of `expr` shifted
/// left by `shift`.
#[derive(Debug)]
pub struct ContextOp {
    pub i: u32,
    pub shift: u32,
    pub mask: u32,
    pub expr: Expr,
}

/// The p-code a constructor emits.
#[derive(Debug)]
pub struct ConstructorTemplate {
    pub num_labels: u32,
    pub statements: Vec<ConsTemplate>,
}

/// A p-code operation template.
#[derive(Debug)]
pub struct OpTemplate {
    pub code: String,
    pub output: Option<VarnodeTemplate>,
    pub inputs: Vec<VarnodeTemplate>,
}

/// The template of the value a constructor exports.
#[derive(Debug)]
pub struct HandleTemplate {
    pub space_template: ConstTemplate,
    pub size_template: ConstTemplate,
    pub pointer_template: VarnodeTemplate,
    pub temp_space_template: ConstTemplate,
    pub temp_offset_template: ConstTemplate,
}

/// A statement of a constructor template.
#[derive(Debug)]
pub enum ConsTemplate {
    Op(OpTemplate),
    Handle(HandleTemplate),
}

/// A varnode template whose space, offset and size are all known.
#[derive(Debug)]
pub struct ConcreteVarnodeTemplate {
    space: String,
    offset: u64,
    size: u32,
}

/// A varnode template: its space, offset and size as constant templates.
#[derive(Debug)]
pub struct VarnodeTemplate {
    pub space_template: ConstTemplate,
    pub offset_template: ConstTemplate,
    pub size_template: ConstTemplate,
}

/// An adjustment of an operand's handle.
#[derive(Debug)]
pub enum HandleExpr {
    OffsetPlus(u32),
}

/// A constant of a template.
#[derive(Debug)]
pub enum ConstTemplate {
    SpaceId(String),
    Val(u64),
    Handle((u32, Option<HandleExpr>)),
    Relative(u32),
    Start,
    Next,
    CurSpace,
    CurSpaceSize,
}

/// Which address a literal is relative to: the instruction's start or its end.
#[derive(PartialEq, Eq, Structural, Clone, Copy, Debug)]
pub enum FixupType {
    Start,
    End,
}

/// A whole compiled specification.
#[derive(Debug)]
pub struct Program {
    pub version: u32,
    pub bigendian: bool,
    pub align: u32,
    pub uniqbase: u64,
    pub default_space: String,
    pub spaces: Vec<Space>,
    pub symbols: Vec<Symbol>,
}

/// What is known of a function at an address.
#[derive(Clone, Debug)]
pub struct FuncInfo {
    pub name: Option<String>,
    pub num_params: Option<usize>,
}

/// The operand index that all three parts of a varnode template refer to, if they name the
/// same operand handle.
pub open spec fn spec_handle_index(t: VarnodeTemplate) -> Option<u32> {
    match (t.space_template, t.offset_template, t.size_template) {
        (ConstTemplate::Handle((h1, _)), ConstTemplate::Handle((h2, _)), ConstTemplate::Handle(
            (h3, _),
        )) => if h1 == h2 && h2 == h3 {
            Some(h1)
        } else {
            None
        },
        _ => None,
    }
}

/// The printed form of a constant template: a space by its name, a value in hexadecimal,
/// an operand as `Handle#n`, and the others by their variant (`Relative(n)`, `Start`,
/// `Next`, `CurSpace`, `CurSpaceSize`).
pub open spec fn spec_const_tpl_text(t: ConstTemplate) -> Seq<char> {
    match t {
        ConstTemplate::SpaceId(s) => s@,
        ConstTemplate::Val(v) => spec_hex(v as nat),
        ConstTemplate::Handle((i, _)) => "Handle#"@ + spec_dec(i as nat),
        ConstTemplate::Relative(i) => "Relative("@ + spec_dec(i as nat) + ")"@,
        ConstTemplate::Start => "Start"@,
        ConstTemplate::Next => "Next"@,
        ConstTemplate::CurSpace => "CurSpace"@,
        ConstTemplate::CurSpaceSize => "CurSpaceSize"@,
    }
}

/// The printed form of a varnode template: `Handle#n` where all three parts name operand
/// `n`, else space, offset and size joined with `:`.
pub open spec fn spec_varnode_tpl_text(t: VarnodeTemplate) -> Seq<char> {
    match spec_handle_index(t) {
        Some(h) => "Handle#"@ + spec_dec(h as nat),
        None => spec_const_tpl_text(t.space_template) + ":"@ + spec_const_tpl_text(t.offset_template) + ":"@
            + spec_const_tpl_text(t.size_template),
    }
}

/// The printed form of a handle template: `*[space:size](pointer)`.
pub open spec fn spec_handle_tpl_text(t: HandleTemplate) -> Seq<char> {
    "*["@ + spec_const_tpl_text(t.space_template) + ":"@ + spec_const_tpl_text(t.size_template) + "]("@
        + spec_varnode_tpl_text(t.pointer_template) + ")"@
}

/// The printed form of an op template: `out = CODE(in, ...)`, without `out = ` where it has
/// no output.
pub open spec fn spec_op_tpl_text(t: OpTemplate) -> Seq<char> {
    let ins = spec_join(t.inputs@.map_values(|v: VarnodeTemplate| spec_varnode_tpl_text(v)), ", "@);
    match t.output {
        Some(o) => spec_varnode_tpl_text(o) + " = "@ + t.code@ + "("@ + ins + ")"@,
        None => t.code@ + "("@ + ins + ")"@,
    }
}

impl ConstTemplate {
    /// The printed form of the template (see `spec_const_tpl_text`).
    pub fn to_string(&self) -> (r: String)
        ensures
            r@ == spec_const_tpl_text(*self),
    {
        let mut s = String::new();
        match self {
            ConstTemplate::SpaceId(space) => push_str(&mut s, space.as_str()),
            ConstTemplate::Val(val) => push_hex(&mut s, *val),
            ConstTemplate::Handle((idx, _)) => {
                push_str(&mut s, "Handle#");
                push_dec(&mut s, *idx as u64);
            },
            ConstTemplate::Relative(idx) => {
                push_str(&mut s, "Relative(");
                push_dec(&mut s, *idx as u64);
                push_str(&mut s, ")");
            },
            ConstTemplate::Start => push_str(&mut s, "Start"),
            ConstTemplate::Next => push_str(&mut s, "Next"),
            ConstTemplate::CurSpace => push_str(&mut s, "CurSpace"),
            ConstTemplate::CurSpaceSize => push_str(&mut s, "CurSpaceSize"),
        }
        assert(s@ =~= spec_const_tpl_text(*self));
        s
    }
}

impl HandleTemplate {
    /// The printed form of the template (see `spec_handle_tpl_text`).
    pub fn to_string(&self) -> (r: String)
        ensures
            r@ == spec_handle_tpl_text(*self),
    {
        let mut s = String::new();
        push_str(&mut s, "*[");
        let a = self.space_template.to_string();
        push_str(&mut s, a.as_str());
        push_str(&mut s, ":");
        let b = self.size_template.to_string();
        push_str(&mut s, b.as_str());
        push_str(&mut s, "](");
        let c = self.pointer_template.to_string();
        push_str(&mut s, c.as_str());
        push_str(&mut s, ")");
        assert(s@ =~= spec_handle_tpl_text(*self));
        s
    }
}

impl OpTemplate {
    /// The printed form of the template (see `spec_op_tpl_text`).
    pub fn to_string(&self) -> (r: String)
        ensures
            r@ == spec_op_tpl_text(*self),
    {
        let ghost ts = self.inputs@.map_values(|v: VarnodeTemplate| spec_varnode_tpl_text(v));
        let mut ins = String::new();
        let mut i: usize = 0;
        assert(ts.subrange(0, 0) =~= Seq::<Seq<char>>::empty());
        while i < self.inputs.len()
            invariant
                i <= self.inputs@.len(),
                ts == self.inputs@.map_values(|v: VarnodeTemplate| spec_varnode_tpl_text(v)),
                ins@ == spec_join(ts.subrange(0, i as int), ", "@),
            decreases self.inputs@.len() - i,
        {
            let ghost prev = ts.subrange(0, i as int);
            assert(ts.subrange(0, i + 1) =~= prev.push(ts[i as int]));
            assert(prev.push(ts[i as int]).drop_last() =~= prev);
            if i > 0 {
                push_str(&mut ins, ", ");
            } else {
                assert(prev.push(ts[i as int]) =~= seq![ts[i as int]]);
            }
            let t = self.inputs[i].to_string();
            push_str(&mut ins, t.as_str());
            i = i + 1;
        }
        assert(ts.subrange(0, self.inputs@.len() as int) =~= ts);
        let mut s = String::new();
        if let Some(output) = &self.output {
            let o = output.to_string();
            push_str(&mut s, o.as_str());
            push_str(&mut s, " = ");
        }
        push_str(&mut s, self.code.as_str());
        push_str(&mut s, "(");
        push_str(&mut s, ins.as_str());
        push_str(&mut s, ")");
        assert(s@ =~= spec_op_tpl_text(*self));
        s
    }
}

impl VarnodeTemplate {
    /// The printed form of the template (see `spec_varnode_tpl_text`).
    pub fn to_string(&self) -> (r: String)
        ensures
            r@ == spec_varnode_tpl_text(*self),
    {
        let mut s = String::new();
        match self.handle_index() {
            Some(h) => {
                push_str(&mut s, "Handle#");
                push_dec(&mut s, h as u64);
            },
            None => {
                let a = self.space_template.to_string();
                push_str(&mut s, a.as_str());
                push_str(&mut s, ":");
                let b = self.offset_template.to_string();
                push_str(&mut s, b.as_str());
                push_str(&mut s, ":");
                let c = self.size_template.to_string();
                push_str(&mut s, c.as_str());
            },
        }
        assert(s@ =~= spec_varnode_tpl_text(*self));
        s
    }

    /// The operand this template stands for as a whole, if it names one.
    pub fn handle_index(&self) -> (r: Option<usize>)
        ensures
            r == (match spec_handle_index(*self) {
                Some(h) => Some(h as usize),
                None => None,
            }),
    {
        match (&self.space_template, &self.offset_template, &self.size_template) {
            (ConstTemplate::Handle((h1, _)), ConstTemplate::Handle((h2, _)), ConstTemplate::Handle(
                (h3, _),
            )) => {
                if *h1 == *h2 && *h2 == *h3 {
                    Some(*h1 as usize)
                } else {
                    None
                }
            },
            _ => None,
        }
    }
}

/// The big-endian value of the first `k` bytes at `start`.
pub open spec fn spec_be(words: Seq<u8>, start: int, k: nat) -> u64
    decreases k,
{
    if k == 0 {
        0
    } else {
        ((spec_be(words, start, (k - 1) as nat) << 8u64) | (words[start + k - 1] as u64)) as u64
    }
}

/// The little-endian value of the first `k` bytes at `start`.
pub open spec fn spec_le(words: Seq<u8>, start: int, k: nat) -> u64
    decreases k,
{
    if k == 0 {
        0
    } else {
        (spec_le(words, start, (k - 1) as nat) | ((words[start + k - 1] as u64) << ((k - 1) * 8) as u64)) as u64
    }
}

proof fn lemma_be_prepend(b: u8, t: Seq<u8>, n: nat)
    requires
        n < 8,
        t.len() >= n,
    ensures
        spec_be(seq![b] + t, 0, n + 1) == ((b as u64) << ((n * 8) as u64)) | spec_be(t, 0, n),
    decreases n,
{
    let x = seq![b] + t;
    let bb: u64 = b as u64;
    if n == 0 {
        assert(x[0] == b);
        assert(spec_be(x, 0, 0) == 0);
        assert(((0u64 << 8u64) | bb) == ((bb << 0u64) | 0u64)) by (bit_vector);
    } else {
        lemma_be_prepend(b, t, (n - 1) as nat);
        assert(x[n as int] == t[n - 1]);
        let s: u64 = ((n - 1) * 8) as u64;
        let xx: u64 = spec_be(t, 0, (n - 1) as nat);
        let y: u64 = t[n - 1] as u64;
        assert(((((bb << s) | xx) << 8u64) | y) == ((bb << ((s + 8) as u64)) | ((xx << 8u64) | y))) by (bit_vector)
            requires
                s < 56,
        ;
        assert((s + 8) as u64 == (n * 8) as u64);
    }
}

/// The little-endian value of bytes is the big-endian value of the same bytes reversed.
pub proof fn lemma_le_is_reversed_be(w: Seq<u8>, start: int, k: nat)
    requires
        0 <= start,
        start + k <= w.len(),
        k <= 8,
    ensures
        spec_le(w, start, k) == spec_be(w.subrange(start, start + k).reverse(), 0, k),
    decreases k,
{
    if k > 0 {
        lemma_le_is_reversed_be(w, start, (k - 1) as nat);
        let r = w.subrange(start, start + k).reverse();
        let r1 = w.subrange(start, start + k - 1).reverse();
        let b = w[start + k - 1];
        assert(r =~= seq![b] + r1);
        lemma_be_prepend(b, r1, (k - 1) as nat);
        let z: u64 = spec_le(w, start, (k - 1) as nat);
        let a: u64 = (b as u64) << (((k - 1) * 8) as u64);
        assert((z | a) == (a | z)) by (bit_vector);
    }
}

/// Reading bytes little-endian (`get_word_le`) gives what reading the same bytes reversed
/// big-endian (`get_word`) gives.
pub proof fn lemma_word_le_reversed(words: Seq<u8>, start: usize, size: usize)
    requires
        spec_avail(words.len(), start as nat, size as nat) <= 8,
    ensures
        ({
            let k = spec_avail(words.len(), start as nat, size as nat);
            let rev = words.subrange(start as int, start + k).reverse();
            spec_le(words, start as int, k) == spec_be(rev, 0, spec_avail(rev.len(), 0, k))
        }),
{
    let k = spec_avail(words.len(), start as nat, size as nat);
    if k > 0 {
        lemma_le_is_reversed_be(words, start as int, k);
    }
}

/// How many of `size` bytes at `start` lie within `len` bytes.
pub open spec fn spec_avail(len: nat, start: nat, size: nat) -> nat {
    if start >= len {
        0
    } else if start + size <= len {
        size
    } else {
        (len - start) as nat
    }
}

/// Reads up to `size` bytes at `start` as a big-endian number, stopping at the end of
/// `words`.
pub fn get_word(words: &[u8], start: usize, size: usize) -> (r: u64)
    ensures
        r == spec_be(words@, start as int, spec_avail(words@.len(), start as nat, size as nat)),
{
    let mut word: u64 = 0;
    let mut i: usize = 0;
    let ghost k = spec_avail(words@.len(), start as nat, size as nat);
    while i < size
        invariant
            i <= size,
            i <= k,
            k == spec_avail(words@.len(), start as nat, size as nat),
            word == spec_be(words@, start as int, i as nat),
        decreases size - i,
    {
        if start >= words.len() || i >= words.len() - start {
            assert(i == k);
            return word;
        }
        word = (word << 8) | (words[start + i] as u64);
        i = i + 1;
    }
    word
}

/// Reads up to `size` bytes at `start` as a little-endian number, stopping at the end of
/// `words`; at most eight bytes can be read.
pub fn get_word_le(words: &[u8], start: usize, size: usize) -> (r: u64)
    requires
        spec_avail(words@.len(), start as nat, size as nat) <= 8,
    ensures
        r == spec_le(words@, start as int, spec_avail(words@.len(), start as nat, size as nat)),
{
    let mut word: u64 = 0;
    let mut i: usize = 0;
    let ghost k = spec_avail(words@.len(), start as nat, size as nat);
    while i < size
        invariant
            i <= size,
            i <= k,
            k <= 8,
            k == spec_avail(words@.len(), start as nat, size as nat),
            word == spec_le(words@, start as int, i as nat),
        decreases size - i,
    {
        if start >= words.len() || i >= words.len() - start {
            assert(i == k);
            return word;
        }
        word = word | ((words[start + i] as u64) << ((i * 8) as u64));
        i = i + 1;
    }
    word
}

/// A language ready for decoding: the specification's symbols by id, its spaces, the names
/// of its registers, its context variables and the context register.
#[derive(Debug)]
pub struct SleighLanguage {
    pub language: Language,
    pub bit_align: usize,
    pub symbols: HashMap<u32, Symbol>,
    pub spaces: Vec<(String, u64)>,
    pub _varnodes: Vec<(String, VarnodeSym)>,
    pub varnode_map: VarnodeMap,
    pub context_syms: Vec<(String, Context)>,
    pub reg_sizes: Vec<Vec<Varnode>>,
    pub reg_space_size: usize,
    pub insn_table_id: u32,
    pub context_reg: VarnodeSym,
    pub func_info: Vec<(u64, FuncInfo)>,
}

/// Looks a symbol up by id (`HashMap::get`).
pub fn get_symbol<'a>(lang: &'a SleighLanguage, id: u32) -> (r: Option<&'a Symbol>)
    ensures
        match r {
            Some(s) => lang.symbols@.contains_key(id) && *s == lang.symbols@[id],
            None => !lang.symbols@.contains_key(id),
        },
{
    broadcast use vstd::std_specs::hash::group_hash_axioms;
    lang.symbols.get(&id)
}

impl Clone for VarnodeSym {
    fn clone(&self) -> (r: Self)
        ensures
            r == *self,
    {
        VarnodeSym { name: self.name.clone(), scope: self.scope, space: self.space, offset: self.offset, size: self.size }
    }
}

impl Clone for Context {
    fn clone(&self) -> (r: Self)
        ensures
            r == *self,
    {
        Context {
            name: self.name.clone(),
            scope: self.scope,
            varnode: self.varnode,
            low: self.low,
            high: self.high,
            flow: self.flow,
            context_field: self.context_field,
        }
    }
}

/// The symbols of a specification by id, a later symbol replacing an earlier one.
pub open spec fn spec_symbol_map(syms: Seq<Symbol>) -> Map<u32, Symbol>
    decreases syms.len(),
{
    if syms.len() == 0 {
        Map::empty()
    } else {
        spec_symbol_map(syms.drop_last()).insert(syms.last().id, syms.last())
    }
}

/// The varnode symbol named `name`, from the latest entry that names it.
pub open spec fn spec_named_varnode(entries: Seq<(String, VarnodeSym)>, name: Seq<char>) -> Option<VarnodeSym>
    decreases entries.len(),
{
    if entries.len() == 0 {
        None
    } else if entries.last().0@ == name {
        Some(entries.last().1)
    } else {
        spec_named_varnode(entries.drop_last(), name)
    }
}

fn named_varnode(entries: &Vec<(String, VarnodeSym)>, name: &str) -> (r: Option<VarnodeSym>)
    ensures
        r == spec_named_varnode(entries@, name@),
{
    let mut i = entries.len();
    assert(entries@.take(i as int) =~= entries@);
    while i > 0
        invariant
            i <= entries@.len(),
            spec_named_varnode(entries@, name@) == spec_named_varnode(entries@.take(i as int), name@),
        decreases i,
    {
        assert(entries@.take(i as int).drop_last() =~= entries@.take(i - 1));
        if crate::text::str_eq(entries[i - 1].0.as_str(), name) {
            return Some(entries[i - 1].1.clone());
        }
        i = i - 1;
    }
    None
}

/// Whether the register lists by offset are sorted by size, name the registers of
/// `vmap` at their offset, and hold no size twice.
pub open spec fn spec_reg_sizes_ok(reg_sizes: Seq<Vec<Varnode>>, vmap: VarnodeMap) -> bool {
    forall|o: int| 0 <= o < reg_sizes.len() ==> ({
        let regs = #[trigger] reg_sizes[o]@;
        &&& forall|a: int, b: int| 0 <= a < b < regs.len() ==> regs[a].size < regs[b].size
        &&& forall|a: int| 0 <= a < regs.len() ==> regs[a].space == AddressSpace::Register && regs[a].offset == o
            && regs[a].name == spec_map_lookup(vmap.entries@, o as u64, regs[a].size)
            && spec_map_lookup(vmap.entries@, o as u64, regs[a].size) is Some
    })
}

/// Puts a register into the list of its offset, keeping the list sorted by size.
fn insert_by_size(regs: &mut Vec<Varnode>, reg: Varnode)
    requires
        forall|a: int, b: int| 0 <= a < b < old(regs)@.len() ==> old(regs)@[a].size < old(regs)@[b].size,
        forall|a: int| 0 <= a < old(regs)@.len() ==> old(regs)@[a].size != reg.size,
    ensures
        forall|a: int, b: int| 0 <= a < b < final(regs)@.len() ==> final(regs)@[a].size < final(regs)@[b].size,
        forall|a: int| 0 <= a < final(regs)@.len() ==> old(regs)@.contains(#[trigger] final(regs)@[a]) || final(regs)@[a] == reg,
        final(regs)@.contains(reg),
        forall|a: int| 0 <= a < old(regs)@.len() ==> final(regs)@.contains(#[trigger] old(regs)@[a]),
{
    let mut i: usize = 0;
    while i < regs.len() && regs[i].size < reg.size
        invariant
            i <= regs@.len(),
            regs@ == old(regs)@,
            forall|a: int| 0 <= a < i ==> regs@[a].size < reg.size,
        decreases regs@.len() - i,
    {
        i = i + 1;
    }
    let ghost before = regs@;
    regs.insert(i, reg);
    assert(regs@ == before.insert(i as int, reg));
    assert forall|a: int, b: int| 0 <= a < b < regs@.len() implies regs@[a].size < regs@[b].size by {
        if b < i {
        } else if a < i && b == i {
        } else if a < i && b > i {
            assert(regs@[b] == before[b - 1]);
            if i < before.len() {
                assert(before[i as int].size >= reg.size);
                assert(before[i as int].size != reg.size);
            }
        } else if a == i {
            assert(regs@[b] == before[b - 1]);
            assert(before[i as int].size >= reg.size);
            assert(before[i as int].size != reg.size);
            if b - 1 > i {
                assert(before[i as int].size < before[b - 1].size);
            }
        } else {
            assert(regs@[a] == before[a - 1]);
            assert(regs@[b] == before[b - 1]);
        }
    }
    assert(regs@[i as int] == reg);
    assert forall|a: int| 0 <= a < before.len() implies regs@.contains(#[trigger] before[a]) by {
        if a < i {
            assert(regs@[a] == before[a]);
        } else {
            assert(regs@[a + 1] == before[a]);
        }
    }
    assert forall|a: int| 0 <= a < regs@.len() implies before.contains(#[trigger] regs@[a]) || regs@[a] == reg by {
        if a < i {
            assert(regs@[a] == before[a]);
        } else if a > i {
            assert(regs@[a] == before[a - 1]);
        }
    }
}

/// The space table of a specification: each space with its number, the count of distinct
/// names before it (a repeated name takes the count as it stands), and that count after the
/// last space.
pub open spec fn spec_space_table(sp: Seq<Space>) -> (Seq<(String, u64)>, nat)
    decreases sp.len(),
{
    if sp.len() == 0 {
        (Seq::empty(), 0)
    } else {
        let (t, c) = spec_space_table(sp.drop_last());
        let nm = sp.last().name;
        let seen = exists|j: int| 0 <= j < t.len() && (#[trigger] t[j]).0@ == nm@;
        (t.push((nm, c as u64)), if seen { c } else { c + 1 })
    }
}

/// What a language keeps of a specification's symbols, in order: the varnode symbols by
/// name, the register names by location, the context variables by name, the size of the
/// register space (the furthest end of a register) and the id of the instruction table
/// (the latest subtable named `instruction`, else 0). `None` where a register ends past
/// 64 bits or past `usize::MAX`.
pub open spec fn spec_symbol_parts(syms: Seq<Symbol>) -> Option<(Seq<(String, VarnodeSym)>, Seq<(u64, u64, String)>, Seq<(String, Context)>, usize, u32)>
    decreases syms.len(),
{
    if syms.len() == 0 {
        Some((Seq::empty(), Seq::empty(), Seq::empty(), 0, 0))
    } else {
        match spec_symbol_parts(syms.drop_last()) {
            None => None,
            Some((vns, entries, ctxs, rss, insn)) => {
                let sym = syms.last();
                match sym.body {
                    SymbolBody::Subtable(st) => Some((vns, entries, ctxs, rss, if st.name@ == "instruction"@ { sym.id } else { insn })),
                    SymbolBody::Varnode(v) => if v.space == AddressSpace::Register {
                        if v.offset + v.size > u64::MAX || v.offset + v.size > usize::MAX {
                            None
                        } else {
                            let end = (v.offset + v.size) as usize;
                            Some((vns.push((v.name, v)), entries.push((v.offset, v.size, v.name)), ctxs, if end > rss { end } else { rss }, insn))
                        }
                    } else {
                        Some((vns.push((v.name, v)), entries, ctxs, rss, insn))
                    },
                    SymbolBody::Context(c) => Some((vns, entries, ctxs.push((c.name, c)), rss, insn)),
                    _ => Some((vns, entries, ctxs, rss, insn)),
                }
            },
        }
    }
}

/// The furthest end of the register names' locations; `None` where one ends past 64 bits.
pub open spec fn spec_max_end(entries: Seq<(u64, u64, String)>) -> Option<u64>
    decreases entries.len(),
{
    if entries.len() == 0 {
        Some(0)
    } else {
        match spec_max_end(entries.drop_last()) {
            None => None,
            Some(m) => {
                let (o, sz, _) = entries.last();
                if o + sz > u64::MAX {
                    None
                } else if o + sz > m {
                    Some((o + sz) as u64)
                } else {
                    Some(m)
                }
            },
        }
    }
}

/// Whether every register name at offset `o` with a size has a register of that size in
/// `regs`.
pub open spec fn spec_regs_complete(regs: Seq<Varnode>, entries: Seq<(u64, u64, String)>, o: int) -> bool {
    forall|i: int| 0 <= i < entries.len() && (#[trigger] entries[i]).0 == o && entries[i].1 > 0
        ==> exists|a: int| 0 <= a < regs.len() && (#[trigger] regs[a]).size == entries[i].1
}

proof fn lemma_parts_max_end(syms: Seq<Symbol>)
    ensures
        spec_symbol_parts(syms) matches Some((_, entries, _, rss, _)) ==> spec_max_end(entries) == Some(rss as u64),
    decreases syms.len(),
{
    if syms.len() > 0 {
        lemma_parts_max_end(syms.drop_last());
        match spec_symbol_parts(syms.drop_last()) {
            Some((vns, entries, ctxs, rss, insn)) => {
                let sym = syms.last();
                match sym.body {
                    SymbolBody::Varnode(v) => if v.space == AddressSpace::Register {
                        let e2 = entries.push((v.offset, v.size, v.name));
                        assert(e2.drop_last() =~= entries);
                    },
                    _ => {},
                }
            },
            None => {},
        }
    }
}

/// The register tables of a language built from a compiled specification: the register
/// space is as long as the furthest end of a register, there is one list for each of its
/// offsets, each list
/// holds registers at its offset, sorted by size and named as the varnode map names them,
/// and the alignment is kept in bits.
pub proof fn lemma_language_registers(sla: Program, language: Language, r: Option<SleighLanguage>)
    requires
        spec_language_from(sla, language, r),
        r is Some,
    ensures
        r.unwrap().reg_sizes@.len() == r.unwrap().reg_space_size,
        spec_max_end(r.unwrap().varnode_map.entries@) == Some(r.unwrap().reg_space_size as u64),
        spec_reg_sizes_ok(r.unwrap().reg_sizes@, r.unwrap().varnode_map),
        r.unwrap().bit_align == sla.align * 8,
{
    lemma_parts_max_end(sla.symbols@);
}

proof fn lemma_symbol_parts_prefix(syms: Seq<Symbol>, k: int)
    requires
        0 <= k <= syms.len(),
        spec_symbol_parts(syms.take(k)) is None,
    ensures
        spec_symbol_parts(syms) is None,
    decreases syms.len() - k,
{
    if k < syms.len() {
        assert(syms.take(k + 1).drop_last() =~= syms.take(k));
        lemma_symbol_parts_prefix(syms, k + 1);
    } else {
        assert(syms.take(k) =~= syms);
    }
}

proof fn lemma_max_end_prefix(entries: Seq<(u64, u64, String)>, k: int)
    requires
        0 <= k <= entries.len(),
        spec_max_end(entries.take(k)) is None,
    ensures
        spec_max_end(entries) is None,
    decreases entries.len() - k,
{
    if k < entries.len() {
        assert(entries.take(k + 1).drop_last() =~= entries.take(k));
        lemma_max_end_prefix(entries, k + 1);
    } else {
        assert(entries.take(k) =~= entries);
    }
}

proof fn lemma_max_end_bound(entries: Seq<(u64, u64, String)>, i: int)
    requires
        0 <= i < entries.len(),
        spec_max_end(entries) is Some,
    ensures
        entries[i].0 + entries[i].1 <= spec_max_end(entries).unwrap(),
    decreases entries.len(),
{
    if i < entries.len() - 1 {
        assert(entries.drop_last()[i] == entries[i]);
        lemma_max_end_bound(entries.drop_last(), i);
    }
}

/// The space table of a specification (see `spec_space_table`).
fn space_table(spaces: &Vec<Space>) -> (r: Vec<(String, u64)>)
    ensures
        r@ == spec_space_table(spaces@).0,
{
    let mut out: Vec<(String, u64)> = Vec::new();
    let mut count: u64 = 0;
    let mut k: usize = 0;
    assert(spaces@.take(0) =~= Seq::<Space>::empty());
    while k < spaces.len()
        invariant
            k <= spaces@.len(),
            count <= k,
            out@ == spec_space_table(spaces@.take(k as int)).0,
            count == spec_space_table(spaces@.take(k as int)).1,
        decreases spaces@.len() - k,
    {
        let name = spaces[k].name.clone();
        let mut seen = false;
        let mut j: usize = 0;
        while j < out.len()
            invariant
                j <= out@.len(),
                seen == exists|q: int| 0 <= q < j && (#[trigger] out@[q]).0@ == name@,
            decreases out@.len() - j,
        {
            if crate::text::str_eq(out[j].0.as_str(), name.as_str()) {
                seen = true;
            }
            j = j + 1;
        }
        assert(spaces@.take(k + 1).drop_last() =~= spaces@.take(k as int));
        out.push((name, count));
        if !seen {
            count = count + 1;
        }
        k = k + 1;
    }
    assert(spaces@.take(spaces@.len() as int) =~= spaces@);
    out
}

/// Whether `r` is the language a compiled specification describes (see `from_program`):
/// the symbols by id, the spaces numbered as `spec_space_table` says, what
/// `spec_symbol_parts` keeps of the symbols, the registers by offset (each list sorted by
/// size, naming every register of its offset once), and the context register (the latest
/// varnode named `contextreg`). `None` where the alignment in bits overflows 32 bits, the
/// specification has no `contextreg` varnode, or a register ends past 64 bits or past
/// `usize::MAX`.
pub open spec fn spec_language_from(sla: Program, language: Language, r: Option<SleighLanguage>) -> bool {
    match spec_symbol_parts(sla.symbols@) {
        Some((vns, entries, ctxs, rss, insn)) => match (spec_named_varnode(vns, "contextreg"@), spec_max_end(entries)) {
            (Some(cr), Some(m)) => if sla.align * 8 <= u32::MAX && m <= usize::MAX {
                r is Some && ({
                    let l = r.unwrap();
                    &&& l.symbols@ == spec_symbol_map(sla.symbols@)
                    &&& l.bit_align == sla.align * 8
                    &&& l.language == language
                    &&& l.spaces@ == spec_space_table(sla.spaces@).0
                    &&& l._varnodes@ == vns
                    &&& l.varnode_map.entries@ == entries
                    &&& l.context_syms@ == ctxs
                    &&& l.reg_space_size == rss
                    &&& l.insn_table_id == insn
                    &&& l.context_reg == cr
                    &&& l.reg_sizes@.len() == m
                    &&& spec_reg_sizes_ok(l.reg_sizes@, l.varnode_map)
                    &&& forall|o: int| 0 <= o < m ==> spec_regs_complete(#[trigger] l.reg_sizes@[o]@, entries, o)
                    &&& l.func_info@.len() == 0
                })
            } else {
                r is None
            },
            _ => r is None,
        },
        None => r is None,
    }
}

impl SleighLanguage {
    /// The language a compiled specification describes, with its processor and compiler
    /// specifications: the symbols by id, the spaces numbered as `spec_space_table` says,
    /// what `spec_symbol_parts` keeps of the symbols, the registers by offset (each list
    /// sorted by size, naming every register of its offset once), and the context register
    /// (the latest varnode named `contextreg`). `None` where the alignment in bits overflows
    /// 32 bits, the specification has no `contextreg` varnode, or a register ends past 64
    /// bits or past `usize::MAX`.
    pub fn from_program(sla: Program, language: Language) -> (r: Option<SleighLanguage>)
        ensures
            spec_language_from(sla, language, r),
    {
        broadcast use vstd::std_specs::hash::group_hash_axioms;
        let spaces = space_table(&sla.spaces);
        let mut symbols: HashMap<u32, Symbol> = HashMap::new();
        let mut varnodes: Vec<(String, VarnodeSym)> = Vec::new();
        let mut varnode_map = VarnodeMap::new();
        let mut context_syms: Vec<(String, Context)> = Vec::new();
        let mut reg_space_size: usize = 0;
        let mut insn_table_id: u32 = 0;
        let ghost all = sla.symbols@;
        let total = sla.symbols.len();
        if sla.align > u32::MAX / 8 {
            return None;
        }
        let bit_align = (sla.align * 8) as usize;
        let mut rest = sla.symbols;
        let mut rev: Vec<Symbol> = Vec::new();
        while rest.len() > 0
            invariant
                rest@.len() + rev@.len() == all.len(),
                all.len() == total,
                forall|i: int| 0 <= i < rest@.len() ==> rest@[i] == all[i],
                forall|i: int| 0 <= i < rev@.len() ==> #[trigger] rev@[i] == all[all.len() - 1 - i],
            decreases rest@.len(),
        {
            let x = rest.pop().unwrap();
            rev.push(x);
        }
        let mut n: usize = 0;
        assert(all.take(0) =~= Seq::<Symbol>::empty());
        assert(varnode_map.entries@ =~= Seq::<(u64, u64, String)>::empty());
        while rev.len() > 0
            invariant
                rev@.len() + n == all.len(),
                all.len() == total,
                forall|i: int| 0 <= i < rev@.len() ==> #[trigger] rev@[i] == all[all.len() - 1 - i],
                symbols@ == spec_symbol_map(all.take(n as int)),
                all == sla.symbols@,
                sla.align <= u32::MAX / 8,
                spec_symbol_parts(all.take(n as int)) == Some((varnodes@, varnode_map.entries@, context_syms@, reg_space_size, insn_table_id)),
            decreases rev@.len(),
        {
            let sym = rev.pop().unwrap();
            assert(sym == all[n as int]);
            assert(all.take(n + 1).drop_last() =~= all.take(n as int));
            assert(all.take(n + 1).last() == sym);
            match &sym.body {
                SymbolBody::Subtable(subtable) => {
                    if crate::text::str_eq(subtable.name.as_str(), "instruction") {
                        insn_table_id = sym.id;
                    }
                },
                SymbolBody::Varnode(varnode) => {
                    varnodes.push((varnode.name.clone(), varnode.clone()));
                    if varnode.space == AddressSpace::Register {
                        if varnode.offset > u64::MAX - varnode.size || varnode.offset + varnode.size > usize::MAX as u64 {
                            proof {
                                assert(spec_symbol_parts(all.take(n + 1)) is None);
                                lemma_symbol_parts_prefix(all, n + 1);
                                assert(spec_symbol_parts(all) is None);
                                assert(spec_language_from(sla, language, None));
                            }
                            return None;
                        }
                        let end = (varnode.offset + varnode.size) as usize;
                        if end > reg_space_size {
                            reg_space_size = end;
                        }
                        varnode_map.insert(varnode.offset, varnode.size, varnode.name.clone());
                    }
                },
                SymbolBody::Context(ctx) => {
                    context_syms.push((ctx.name.clone(), ctx.clone()));
                },
                _ => {},
            }
            let id = sym.id;
            symbols.insert(id, sym);
            n = n + 1;
        }
        assert(all.take(all.len() as int) =~= all);
        let ctx_reg = match named_varnode(&varnodes, "contextreg") {
            Some(v) => v,
            None => return None,
        };
        let ghost entries = varnode_map.entries@;
        let mut max_off: u64 = 0;
        let mut e: usize = 0;
        assert(entries.take(0) =~= Seq::<(u64, u64, String)>::empty());
        while e < varnode_map.entries.len()
            invariant
                e <= varnode_map.entries@.len(),
                entries == varnode_map.entries@,
                spec_max_end(entries.take(e as int)) == Some(max_off),
                spec_symbol_parts(sla.symbols@) == Some((varnodes@, entries, context_syms@, reg_space_size, insn_table_id)),
                spec_named_varnode(varnodes@, "contextreg"@) == Some(ctx_reg),
            decreases varnode_map.entries@.len() - e,
        {
            let (o, sz, _) = &varnode_map.entries[e];
            assert(entries.take(e + 1).drop_last() =~= entries.take(e as int));
            assert(entries.take(e + 1).last() == entries[e as int]);
            if *o > u64::MAX - *sz {
                proof {
                    lemma_max_end_prefix(entries, e + 1);
                    assert(spec_language_from(sla, language, None));
                }
                return None;
            }
            if *o + *sz > max_off {
                max_off = *o + *sz;
            }
            e = e + 1;
        }
        assert(entries.take(entries.len() as int) =~= entries);
        if max_off > usize::MAX as u64 {
            assert(spec_max_end(entries) == Some(max_off));
            assert(spec_symbol_parts(sla.symbols@) == Some((varnodes@, entries, context_syms@, reg_space_size, insn_table_id)));
            assert(spec_language_from(sla, language, None));
            return None;
        }
        let mut reg_sizes: Vec<Vec<Varnode>> = Vec::new();
        let mut o: u64 = 0;
        while o < max_off
            invariant
                o <= max_off,
                reg_sizes@.len() == o,
                entries == varnode_map.entries@,
                spec_reg_sizes_ok(reg_sizes@, varnode_map),
                forall|q: int| 0 <= q < o ==> spec_regs_complete(#[trigger] reg_sizes@[q]@, entries, q),
            decreases max_off - o,
        {
            let mut regs: Vec<Varnode> = Vec::new();
            let mut e: usize = 0;
            while e < varnode_map.entries.len()
                invariant
                    e <= varnode_map.entries@.len(),
                    entries == varnode_map.entries@,
                    forall|a: int, b: int| 0 <= a < b < regs@.len() ==> regs@[a].size < regs@[b].size,
                    forall|a: int| 0 <= a < regs@.len() ==> regs@[a].space == AddressSpace::Register && regs@[a].offset == o
                        && regs@[a].name == spec_map_lookup(varnode_map.entries@, o, regs@[a].size)
                        && spec_map_lookup(varnode_map.entries@, o, regs@[a].size) is Some,
                    forall|i: int| 0 <= i < e && (#[trigger] entries[i]).0 == o && entries[i].1 > 0
                        ==> exists|a: int| 0 <= a < regs@.len() && (#[trigger] regs@[a]).size == entries[i].1,
                decreases varnode_map.entries@.len() - e,
            {
                let eo = varnode_map.entries[e].0;
                let sz = varnode_map.entries[e].1;
                if eo == o && sz > 0 {
                    let mut present = false;
                    let mut j: usize = 0;
                    while j < regs.len()
                        invariant
                            j <= regs@.len(),
                            present == (exists|a: int| 0 <= a < j && regs@[a].size == sz),
                        decreases regs@.len() - j,
                    {
                        if regs[j].size == sz {
                            present = true;
                        }
                        j = j + 1;
                    }
                    if !present {
                        let name = varnode_map.get(o, sz);
                        proof {
                            lemma_lookup_present(varnode_map.entries@, e as int);
                        }
                        let reg = Varnode { name, space: AddressSpace::Register, offset: o, size: sz };
                        let ghost before = regs@;
                        insert_by_size(&mut regs, reg);
                        assert forall|a: int| 0 <= a < regs@.len() implies regs@[a].space == AddressSpace::Register && regs@[a].offset == o
                            && regs@[a].name == spec_map_lookup(varnode_map.entries@, o, regs@[a].size)
                            && spec_map_lookup(varnode_map.entries@, o, regs@[a].size) is Some by {
                            if regs@[a] != reg {
                                assert(before.contains(regs@[a]));
                            }
                        }
                        assert forall|i: int| 0 <= i <= e && (#[trigger] entries[i]).0 == o && entries[i].1 > 0
                            implies exists|a: int| 0 <= a < regs@.len() && (#[trigger] regs@[a]).size == entries[i].1 by {
                            if i < e {
                                let a0 = choose|a: int| 0 <= a < before.len() && (#[trigger] before[a]).size == entries[i].1;
                                assert(regs@.contains(before[a0]));
                            } else {
                                assert(regs@.contains(reg));
                            }
                        }
                    }
                }
                e = e + 1;
            }
            let ghost before = reg_sizes@;
            reg_sizes.push(regs);
            assert forall|q: int| 0 <= q < reg_sizes@.len() implies ({
                let rs = #[trigger] reg_sizes@[q]@;
                &&& forall|a: int, b: int| 0 <= a < b < rs.len() ==> rs[a].size < rs[b].size
                &&& forall|a: int| 0 <= a < rs.len() ==> rs[a].space == AddressSpace::Register && rs[a].offset == q
                    && rs[a].name == spec_map_lookup(varnode_map.entries@, q as u64, rs[a].size)
                    && spec_map_lookup(varnode_map.entries@, q as u64, rs[a].size) is Some
            }) by {
                if q < before.len() {
                    assert(reg_sizes@[q] == before[q]);
                }
            }
            assert forall|q: int| 0 <= q < reg_sizes@.len() implies spec_regs_complete(#[trigger] reg_sizes@[q]@, entries, q) by {
                if q < before.len() {
                    assert(reg_sizes@[q] == before[q]);
                }
            }
            o = o + 1;
        }
        Some(SleighLanguage {
            language,
            bit_align,
            symbols,
            spaces,
            _varnodes: varnodes,
            varnode_map,
            context_syms,
            reg_sizes,
            reg_space_size,
            insn_table_id,
            context_reg: ctx_reg,
            func_info: Vec::new(),
        })
    }
}

/// The registers a specification names: each varnode symbol of the register space, by
/// name, in symbol order.
pub open spec fn spec_registers_of(syms: Seq<Symbol>) -> Seq<(String, Varnode)>
    decreases syms.len(),
{
    if syms.len() == 0 {
        seq![]
    } else {
        let rest = spec_registers_of(syms.drop_last());
        match syms.last().body {
            SymbolBody::Varnode(v) => if v.space == AddressSpace::Register {
                rest.push((v.name, Varnode { name: Some(v.name), space: AddressSpace::Register, offset: v.offset, size: v.size }))
            } else {
                rest
            },
            _ => rest,
        }
    }
}

/// The registers a specification names, by name (see `spec_registers_of`), for reading
/// the processor and compiler specifications.
pub fn registers_of(sla: &Program) -> (r: Vec<(String, Varnode)>)
    ensures
        r@ == spec_registers_of(sla.symbols@),
{
    let mut r: Vec<(String, Varnode)> = Vec::new();
    let mut i: usize = 0;
    while i < sla.symbols.len()
        invariant
            i <= sla.symbols@.len(),
            r@ == spec_registers_of(sla.symbols@.take(i as int)),
        decreases sla.symbols@.len() - i,
    {
        assert(sla.symbols@.take(i + 1).drop_last() =~= sla.symbols@.take(i as int));
        match &sla.symbols[i].body {
            SymbolBody::Varnode(v) => {
                if v.space == AddressSpace::Register {
                    let reg = Varnode { name: Some(v.name.clone()), space: AddressSpace::Register, offset: v.offset, size: v.size };
                    r.push((v.name.clone(), reg));
                }
            },
            _ => {},
        }
        i = i + 1;
    }
    assert(sla.symbols@.take(sla.symbols@.len() as int) =~= sla.symbols@);
    r
}

proof fn lemma_lookup_present(entries: Seq<(u64, u64, String)>, e: int)
    requires
        0 <= e < entries.len(),
    ensures
        spec_map_lookup(entries, entries[e].0, entries[e].1) is Some,
    decreases entries.len(),
{
    if e < entries.len() - 1 {
        if !(entries.last().0 == entries[e].0 && entries.last().1 == entries[e].1) {
            assert(entries.drop_last()[e] == entries[e]);
            lemma_lookup_present(entries.drop_last(), e);
        }
    }
}

} // verus!
