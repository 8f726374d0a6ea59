//! P-code ops of the decompiler library and how they are printed.
use vstd::prelude::*;
use super::opcode::OpCode;
use super::types::{SeqNum, PcodeType, Varnode, Vnode, AddressSpace, Address, clone_space};
use super::compound::{GenericCompoundVarnode, spec_compound_text, same_compound, has_parts, spec_union_parts, spec_compound_atoms};
use crate::text::{push_str, spec_join};

verus! {

/// A p-code op over compound varnodes of type `V`, with the varnodes a call kills and uses.
#[derive(Debug)]
pub struct GenericPcodeOp<V> {
    pub kind: PcodeType,
    pub seq: SeqNum,
    pub opcode: OpCode,
    pub inputs: Vec<V>,
    pub output: Option<V>,
    pub killed: Vec<V>,
    pub used: Vec<V>,
}

/// An op over compounds of plain varnodes.
pub type PcodeOp = GenericPcodeOp<GenericCompoundVarnode<Varnode>>;

/// A compound varnode that can be printed (where its parts coalesce).
pub trait CompVnode {
    spec fn spec_ctext(&self) -> Option<Seq<char>>;

    fn text(&self) -> (r: Option<String>)
        ensures
            match self.spec_ctext() {
                Some(t) => r is Some && r.unwrap()@ == t,
                None => r is None,
            },
    ;
}

impl<V: Vnode> CompVnode for GenericCompoundVarnode<V> {
    open spec fn spec_ctext(&self) -> Option<Seq<char>> {
        spec_compound_text(*self)
    }

    fn text(&self) -> (r: Option<String>) {
        GenericCompoundVarnode::<V>::text(self)
    }
}

/// The texts of compounds; `None` where one cannot be printed.
pub open spec fn spec_ctexts<V: CompVnode>(vs: Seq<V>) -> Option<Seq<Seq<char>>>
    decreases vs.len(),
{
    if vs.len() == 0 {
        Some(Seq::empty())
    } else {
        match (spec_ctexts(vs.drop_last()), vs.last().spec_ctext()) {
            (Some(ts), Some(t)) => Some(ts.push(t)),
            _ => None,
        }
    }
}

/// The printed form of an op's output: `out = `, or nothing; `None` where it cannot be
/// printed.
pub open spec fn spec_g_output<V: CompVnode>(out: Option<V>) -> Option<Seq<char>> {
    match out {
        Some(v) => match v.spec_ctext() {
            Some(t) => Some(t + " = "@),
            None => None,
        },
        None => Some(Seq::empty()),
    }
}

/// The printed form of an op's inputs (see `spec_g_fmt_inputs`); `None` where they cannot
/// be printed.
pub open spec fn spec_g_inputs<V: CompVnode>(op: OpCode, ins: Seq<V>) -> Option<Seq<char>> {
    match spec_ctexts(ins) {
        Some(ts) => spec_g_fmt_inputs(op, ts),
        None => None,
    }
}

/// `opstr(input0)`.
pub open spec fn spec_g_unary(opstr: Seq<char>, ts: Seq<Seq<char>>) -> Seq<char> {
    opstr + "("@ + ts[0] + ")"@
}

/// `input0 opstr input1`.
pub open spec fn spec_g_binary(opstr: Seq<char>, ts: Seq<Seq<char>>) -> Seq<char> {
    ts[0] + " "@ + opstr + " "@ + ts[1]
}

/// `opstr(input0, input1, ...)`.
pub open spec fn spec_g_func(opstr: Seq<char>, ts: Seq<Seq<char>>) -> Seq<char> {
    opstr + "("@ + spec_join(ts, ", "@) + ")"@
}

/// The function name an operation is printed with, over all its inputs.
pub open spec fn spec_func_name(op: OpCode) -> Option<Seq<char>> {
    match op {
        OpCode::CPOOLREF => Some("cpool"@),
        OpCode::FLOAT_ABS => Some("abs"@),
        OpCode::FLOAT_CEIL => Some("ceil"@),
        OpCode::FLOAT_FLOAT2FLOAT => Some("float2float"@),
        OpCode::FLOAT_FLOOR => Some("floor"@),
        OpCode::FLOAT_INT2FLOAT => Some("int2float"@),
        OpCode::FLOAT_NAN => Some("nan"@),
        OpCode::FLOAT_ROUND => Some("round"@),
        OpCode::FLOAT_SQRT => Some("sqrt"@),
        OpCode::FLOAT_TRUNC => Some("trunc"@),
        OpCode::INT_CARRY => Some("carry"@),
        OpCode::INT_SBORROW => Some("sborrow"@),
        OpCode::INT_SCARRY => Some("scarry"@),
        OpCode::INT_SEXT => Some("sext"@),
        OpCode::INT_ZEXT => Some("zext"@),
        OpCode::NEW => Some("newobject"@),
        OpCode::POPCOUNT => Some("popcount"@),
        OpCode::CALLOTHER => Some("callother"@),
        OpCode::MULTIEQUAL => Some("phi"@),
        _ => None,
    }
}

fn func_name(op: OpCode) -> (r: Option<&'static str>)
    ensures
        match r {
            Some(t) => spec_func_name(op) == Some(t@),
            None => spec_func_name(op) is None,
        },
{
    match op {
        OpCode::CPOOLREF => Some("cpool"),
        OpCode::FLOAT_ABS => Some("abs"),
        OpCode::FLOAT_CEIL => Some("ceil"),
        OpCode::FLOAT_FLOAT2FLOAT => Some("float2float"),
        OpCode::FLOAT_FLOOR => Some("floor"),
        OpCode::FLOAT_INT2FLOAT => Some("int2float"),
        OpCode::FLOAT_NAN => Some("nan"),
        OpCode::FLOAT_ROUND => Some("round"),
        OpCode::FLOAT_SQRT => Some("sqrt"),
        OpCode::FLOAT_TRUNC => Some("trunc"),
        OpCode::INT_CARRY => Some("carry"),
        OpCode::INT_SBORROW => Some("sborrow"),
        OpCode::INT_SCARRY => Some("scarry"),
        OpCode::INT_SEXT => Some("sext"),
        OpCode::INT_ZEXT => Some("zext"),
        OpCode::NEW => Some("newobject"),
        OpCode::POPCOUNT => Some("popcount"),
        OpCode::CALLOTHER => Some("callother"),
        OpCode::MULTIEQUAL => Some("phi"),
        _ => None,
    }
}

/// The operator printed between an operation's two inputs.
pub open spec fn spec_binary_name(op: OpCode) -> Option<Seq<char>> {
    match op {
        OpCode::BOOL_AND => Some("&&"@),
        OpCode::BOOL_OR => Some("||"@),
        OpCode::BOOL_XOR => Some("^^"@),
        OpCode::FLOAT_ADD => Some("f+"@),
        OpCode::FLOAT_DIV => Some("f/"@),
        OpCode::FLOAT_EQUAL => Some("f=="@),
        OpCode::FLOAT_LESS => Some("f<"@),
        OpCode::FLOAT_LESSEQUAL => Some("f<="@),
        OpCode::FLOAT_MULT => Some("f*"@),
        OpCode::FLOAT_NOTEQUAL => Some("f!="@),
        OpCode::FLOAT_SUB => Some("f-"@),
        OpCode::INT_ADD => Some("+"@),
        OpCode::INT_AND => Some("&"@),
        OpCode::INT_DIV => Some("/"@),
        OpCode::INT_EQUAL => Some("=="@),
        OpCode::INT_LESS => Some("<"@),
        OpCode::INT_LEFT => Some("<<"@),
        OpCode::INT_LESSEQUAL => Some("<="@),
        OpCode::INT_MULT => Some("*"@),
        OpCode::INT_NOTEQUAL => Some("!="@),
        OpCode::INT_OR => Some("|"@),
        OpCode::INT_REM => Some("%"@),
        OpCode::INT_RIGHT => Some(">>"@),
        OpCode::INT_SDIV => Some("s/"@),
        OpCode::INT_SLESS => Some("s<"@),
        OpCode::INT_SREM => Some("s%"@),
        OpCode::INT_SRIGHT => Some("s>>"@),
        OpCode::INT_SUB => Some("-"@),
        OpCode::INT_XOR => Some("^"@),
        _ => None,
    }
}

fn binary_name(op: OpCode) -> (r: Option<&'static str>)
    ensures
        match r {
            Some(t) => spec_binary_name(op) == Some(t@),
            None => spec_binary_name(op) is None,
        },
{
    match op {
        OpCode::BOOL_AND => Some("&&"),
        OpCode::BOOL_OR => Some("||"),
        OpCode::BOOL_XOR => Some("^^"),
        OpCode::FLOAT_ADD => Some("f+"),
        OpCode::FLOAT_DIV => Some("f/"),
        OpCode::FLOAT_EQUAL => Some("f=="),
        OpCode::FLOAT_LESS => Some("f<"),
        OpCode::FLOAT_LESSEQUAL => Some("f<="),
        OpCode::FLOAT_MULT => Some("f*"),
        OpCode::FLOAT_NOTEQUAL => Some("f!="),
        OpCode::FLOAT_SUB => Some("f-"),
        OpCode::INT_ADD => Some("+"),
        OpCode::INT_AND => Some("&"),
        OpCode::INT_DIV => Some("/"),
        OpCode::INT_EQUAL => Some("=="),
        OpCode::INT_LESS => Some("<"),
        OpCode::INT_LEFT => Some("<<"),
        OpCode::INT_LESSEQUAL => Some("<="),
        OpCode::INT_MULT => Some("*"),
        OpCode::INT_NOTEQUAL => Some("!="),
        OpCode::INT_OR => Some("|"),
        OpCode::INT_REM => Some("%"),
        OpCode::INT_RIGHT => Some(">>"),
        OpCode::INT_SDIV => Some("s/"),
        OpCode::INT_SLESS => Some("s<"),
        OpCode::INT_SREM => Some("s%"),
        OpCode::INT_SRIGHT => Some("s>>"),
        OpCode::INT_SUB => Some("-"),
        OpCode::INT_XOR => Some("^"),
        _ => None,
    }
}

/// The operator printed before an operation's one input.
pub open spec fn spec_unary_name(op: OpCode) -> Option<Seq<char>> {
    match op {
        OpCode::INT_NEGATE => Some("~"@),
        OpCode::BOOL_NEGATE => Some("!"@),
        OpCode::FLOAT_NEG => Some("f-"@),
        OpCode::INT_2COMP => Some("-"@),
        _ => None,
    }
}

fn unary_name(op: OpCode) -> (r: Option<&'static str>)
    ensures
        match r {
            Some(t) => spec_unary_name(op) == Some(t@),
            None => spec_unary_name(op) is None,
        },
{
    match op {
        OpCode::INT_NEGATE => Some("~"),
        OpCode::BOOL_NEGATE => Some("!"),
        OpCode::FLOAT_NEG => Some("f-"),
        OpCode::INT_2COMP => Some("-"),
        _ => None,
    }
}

/// The printed form of an op's inputs from their texts; `None` for the operations that
/// have no printed form or where an input it prints is missing.
pub open spec fn spec_g_fmt_inputs(op: OpCode, ts: Seq<Seq<char>>) -> Option<Seq<char>> {
    match spec_func_name(op) {
        Some(n) => Some(spec_g_func(n, ts)),
        None => match spec_binary_name(op) {
            Some(n) => if ts.len() >= 2 { Some(spec_g_binary(n, ts)) } else { None },
            None => match spec_unary_name(op) {
                Some(n) => if ts.len() >= 1 { Some(spec_g_unary(n, ts)) } else { None },
                None => match op {
                    OpCode::COPY => if ts.len() >= 1 { Some(ts[0]) } else { None },
                    OpCode::STORE => if ts.len() >= 3 { Some("*"@ + ts[1] + " = "@ + ts[2]) } else { None },
                    OpCode::LOAD => if ts.len() >= 2 { Some("*"@ + ts[1]) } else { None },
                    OpCode::BRANCH => if ts.len() >= 1 { Some("goto "@ + ts[0]) } else { None },
                    OpCode::BRANCHIND => if ts.len() >= 1 { Some("goto ["@ + ts[0] + "]"@) } else { None },
                    OpCode::CALL => Some("call("@ + spec_join(ts, ", "@) + ")"@),
                    OpCode::CALLIND => if ts.len() >= 1 { Some("call(*("@ + ts[0] + "), "@ + spec_join(ts.drop_first(), ", "@) + ")"@) } else { None },
                    OpCode::CBRANCH => if ts.len() >= 2 { Some("if ("@ + ts[1] + ") goto "@ + ts[0]) } else { None },
                    OpCode::RETURN => Some("return "@ + spec_join(ts, ", "@)),
                    OpCode::SUBPIECE => if ts.len() >= 2 { Some("("@ + ts[0] + ")("@ + ts[1] + ")"@) } else { None },
                    _ => None,
                },
            },
        },
    }
}

fn push_join(s: &mut String, ts: &Vec<String>, start: usize)
    requires
        start <= ts@.len(),
    ensures
        final(s)@ == old(s)@ + spec_join(ts@.map_values(|t: String| t@).subrange(start as int, ts@.len() as int), ", "@),
{
    let ghost all = ts@.map_values(|t: String| t@);
    let mut i = start;
    assert(all.subrange(start as int, start as int) =~= Seq::<Seq<char>>::empty());
    assert(old(s)@ + seq![] =~= old(s)@);
    while i < ts.len()
        invariant
            start <= i <= ts@.len(),
            all == ts@.map_values(|t: String| t@),
            s@ == old(s)@ + spec_join(all.subrange(start as int, i as int), ", "@),
        decreases ts@.len() - i,
    {
        let ghost prev = all.subrange(start as int, i as int);
        assert(all.subrange(start as int, i + 1) =~= prev.push(all[i as int]));
        assert(prev.push(all[i as int]).drop_last() =~= prev);
        if i > start {
            push_str(s, ", ");
        } else {
            assert(prev.push(all[i as int]) =~= seq![all[i as int]]);
        }
        push_str(s, ts[i].as_str());
        i = i + 1;
    }
}

/// The printed form of an op's inputs from their texts (see `spec_g_fmt_inputs`).
pub fn fmt_op_inputs(opcode: OpCode, ts: &Vec<String>) -> (r: Option<String>)
    ensures
        match spec_g_fmt_inputs(opcode, ts@.map_values(|t: String| t@)) {
            Some(x) => r is Some && r.unwrap()@ == x,
            None => r is None,
        },
{
    let ghost tv = ts@.map_values(|t: String| t@);
    assert(ts@.len() >= 1 ==> tv[0] == ts@[0]@);
    assert(ts@.len() >= 2 ==> tv[1] == ts@[1]@);
    assert(ts@.len() >= 3 ==> tv[2] == ts@[2]@);
    assert(tv.subrange(0, ts@.len() as int) =~= tv);
    assert(ts@.len() >= 1 ==> tv.subrange(1, ts@.len() as int) =~= tv.drop_first());
    if let Some(n) = func_name(opcode) {
        let mut s = String::new();
        push_str(&mut s, n);
        push_str(&mut s, "(");
        push_join(&mut s, ts, 0);
        push_str(&mut s, ")");
        assert(s@ =~= spec_g_func(n@, tv));
        return Some(s);
    }
    if let Some(n) = binary_name(opcode) {
        if ts.len() < 2 {
            return None;
        }
        let mut s = String::new();
        push_str(&mut s, ts[0].as_str());
        push_str(&mut s, " ");
        push_str(&mut s, n);
        push_str(&mut s, " ");
        push_str(&mut s, ts[1].as_str());
        assert(s@ =~= spec_g_binary(n@, tv));
        return Some(s);
    }
    if let Some(n) = unary_name(opcode) {
        if ts.len() < 1 {
            return None;
        }
        let mut s = String::new();
        push_str(&mut s, n);
        push_str(&mut s, "(");
        push_str(&mut s, ts[0].as_str());
        push_str(&mut s, ")");
        assert(s@ =~= spec_g_unary(n@, tv));
        return Some(s);
    }
    let mut s = String::new();
    match opcode {
        OpCode::COPY => {
            if ts.len() < 1 { return None; }
            push_str(&mut s, ts[0].as_str());
        },
        OpCode::STORE => {
            if ts.len() < 3 { return None; }
            push_str(&mut s, "*");
            push_str(&mut s, ts[1].as_str());
            push_str(&mut s, " = ");
            push_str(&mut s, ts[2].as_str());
        },
        OpCode::LOAD => {
            if ts.len() < 2 { return None; }
            push_str(&mut s, "*");
            push_str(&mut s, ts[1].as_str());
        },
        OpCode::BRANCH => {
            if ts.len() < 1 { return None; }
            push_str(&mut s, "goto ");
            push_str(&mut s, ts[0].as_str());
        },
        OpCode::BRANCHIND => {
            if ts.len() < 1 { return None; }
            push_str(&mut s, "goto [");
            push_str(&mut s, ts[0].as_str());
            push_str(&mut s, "]");
        },
        OpCode::CALL => {
            push_str(&mut s, "call(");
            push_join(&mut s, ts, 0);
            push_str(&mut s, ")");
        },
        OpCode::CALLIND => {
            if ts.len() < 1 { return None; }
            push_str(&mut s, "call(*(");
            push_str(&mut s, ts[0].as_str());
            push_str(&mut s, "), ");
            push_join(&mut s, ts, 1);
            push_str(&mut s, ")");
        },
        OpCode::CBRANCH => {
            if ts.len() < 2 { return None; }
            push_str(&mut s, "if (");
            push_str(&mut s, ts[1].as_str());
            push_str(&mut s, ") goto ");
            push_str(&mut s, ts[0].as_str());
        },
        OpCode::RETURN => {
            push_str(&mut s, "return ");
            push_join(&mut s, ts, 0);
        },
        OpCode::SUBPIECE => {
            if ts.len() < 2 { return None; }
            push_str(&mut s, "(");
            push_str(&mut s, ts[0].as_str());
            push_str(&mut s, ")(");
            push_str(&mut s, ts[1].as_str());
            push_str(&mut s, ")");
        },
        _ => return None,
    }
    assert(s@ =~= spec_g_fmt_inputs(opcode, tv)->0);
    Some(s)
}

impl<V: CompVnode> GenericPcodeOp<V> {
    /// The texts of the inputs (see `spec_ctexts`).
    pub fn input_texts(&self) -> (r: Option<Vec<String>>)
        ensures
            match spec_ctexts(self.inputs@) {
                Some(ts) => r is Some && r.unwrap()@.map_values(|t: String| t@) == ts,
                None => r is None,
            },
    {
        let mut ts: Vec<String> = Vec::new();
        let mut i: usize = 0;
        assert(self.inputs@.take(0) =~= Seq::<V>::empty());
        assert(ts@.map_values(|t: String| t@) =~= Seq::<Seq<char>>::empty());
        while i < self.inputs.len()
            invariant
                i <= self.inputs@.len(),
                spec_ctexts(self.inputs@.take(i as int)) == Some(ts@.map_values(|t: String| t@)),
            decreases self.inputs@.len() - i,
        {
            assert(self.inputs@.take(i + 1).drop_last() =~= self.inputs@.take(i as int));
            assert(self.inputs@.take(i + 1).last() == self.inputs@[i as int]);
            match self.inputs[i].text() {
                Some(t) => {
                    let ghost before = ts@;
                    ts.push(t);
                    assert(ts@.map_values(|t: String| t@) =~= before.map_values(|t: String| t@).push(ts@.last()@));
                },
                None => {
                    proof {
                        lemma_ctexts_prefix(self.inputs@, i + 1);
                    }
                    return None;
                },
            }
            i = i + 1;
        }
        assert(self.inputs@.take(self.inputs@.len() as int) =~= self.inputs@);
        Some(ts)
    }

    /// The printed form of the inputs (see `spec_g_inputs`), for an op that the printer
    /// knows, with the inputs it reads, whose compounds all print (see `spec_g_printable`).
    pub fn fmt_inputs(&self) -> (r: String)
        requires
            spec_g_printable(self.opcode, self.inputs@),
        ensures
            spec_g_inputs(self.opcode, self.inputs@) == Some(r@),
    {
        proof {
            lemma_ctexts_len(self.inputs@);
        }
        match self.input_texts() {
            Some(ts) => match fmt_op_inputs(self.opcode, &ts) {
                Some(t) => t,
                None => String::new(),
            },
            None => String::new(),
        }
    }

    /// The printed form of the output (see `spec_g_output`).
    pub fn fmt_output(&self) -> (r: Option<String>)
        ensures
            match spec_g_output(self.output) {
                Some(t) => r is Some && r.unwrap()@ == t,
                None => r is None,
            },
    {
        match &self.output {
            Some(v) => match v.text() {
                Some(t) => {
                    let mut s = t;
                    push_str(&mut s, " = ");
                    Some(s)
                },
                None => None,
            },
            None => Some(String::new()),
        }
    }

    /// The printed form of the op: output, then inputs, for an op whose inputs print (see
    /// `spec_g_printable`) and whose output prints.
    pub fn to_string(&self) -> (r: String)
        requires
            spec_g_printable(self.opcode, self.inputs@),
            spec_g_output(self.output) is Some,
        ensures
            Some(r@) == match (spec_g_output(self.output), spec_g_inputs(self.opcode, self.inputs@)) {
                (Some(o), Some(i)) => Some(o + i),
                _ => None,
            },
    {
        let i = self.fmt_inputs();
        match self.fmt_output() {
            Some(o) => {
                let mut s = o;
                push_str(&mut s, i.as_str());
                s
            },
            None => i,
        }
    }
}

/// The operations that the printer writes in a form of their own.
pub open spec fn spec_g_special(op: OpCode) -> bool {
    match op {
        OpCode::COPY | OpCode::STORE | OpCode::LOAD | OpCode::BRANCH | OpCode::BRANCHIND
        | OpCode::CALL | OpCode::CALLIND | OpCode::CBRANCH | OpCode::RETURN | OpCode::SUBPIECE => true,
        _ => false,
    }
}

/// The number of inputs the printer reads of an operation.
pub open spec fn spec_g_min_inputs(op: OpCode) -> nat {
    if spec_binary_name(op) is Some {
        2
    } else if spec_unary_name(op) is Some {
        1
    } else {
        match op {
            OpCode::STORE => 3,
            OpCode::LOAD | OpCode::CBRANCH | OpCode::SUBPIECE => 2,
            OpCode::COPY | OpCode::BRANCH | OpCode::BRANCHIND | OpCode::CALLIND => 1,
            _ => 0,
        }
    }
}

/// Whether an op prints: the printer knows its operation (not one of `INT_SLESSEQUAL`,
/// `INDIRECT`, `PIECE`, `CAST`, `PTRADD`, `PTRSUB`, `SEGMENTOP`, `INSERT`, `EXTRACT`,
/// `INVALID`), it has the inputs the printer reads, and each of them prints.
pub open spec fn spec_g_printable<V: CompVnode>(op: OpCode, ins: Seq<V>) -> bool {
    &&& (spec_func_name(op) is Some || spec_binary_name(op) is Some || spec_unary_name(op) is Some
        || spec_g_special(op))
    &&& ins.len() >= spec_g_min_inputs(op)
    &&& spec_ctexts(ins) is Some
}

proof fn lemma_ctexts_len<V: CompVnode>(vs: Seq<V>)
    ensures
        spec_ctexts(vs) matches Some(ts) ==> ts.len() == vs.len(),
    decreases vs.len(),
{
    if vs.len() > 0 {
        lemma_ctexts_len(vs.drop_last());
    }
}

proof fn lemma_ctexts_prefix<V: CompVnode>(vs: Seq<V>, k: int)
    requires
        0 <= k <= vs.len(),
        spec_ctexts(vs.take(k)) is None,
    ensures
        spec_ctexts(vs) is None,
    decreases vs.len() - k,
{
    if k < vs.len() {
        assert(vs.take(k + 1).drop_last() =~= vs.take(k));
        lemma_ctexts_prefix(vs, k + 1);
    } else {
        assert(vs.take(k) =~= vs);
    }
}

/// What an op offers to later passes: its kind, and the op with another output.
pub trait PcodeIface<V>: Sized {
    fn is_load(&self) -> (r: bool);

    fn is_store(&self) -> (r: bool);

    fn is_copy(&self) -> (r: bool);

    fn is_phi(&self) -> (r: bool);

    fn is_call(&self) -> (r: bool);

    fn is_return(&self) -> (r: bool);
}

impl<V> PcodeIface<V> for GenericPcodeOp<V> {
    fn is_load(&self) -> (r: bool)
        ensures
            r == (self.opcode == OpCode::LOAD),
    {
        self.opcode == OpCode::LOAD
    }

    fn is_store(&self) -> (r: bool)
        ensures
            r == (self.opcode == OpCode::STORE),
    {
        self.opcode == OpCode::STORE
    }

    fn is_copy(&self) -> (r: bool)
        ensures
            r == (self.opcode == OpCode::COPY),
    {
        self.opcode == OpCode::COPY
    }

    fn is_phi(&self) -> (r: bool)
        ensures
            r == (self.kind == PcodeType::Phi),
    {
        self.kind == PcodeType::Phi
    }

    fn is_call(&self) -> (r: bool)
        ensures
            r == (self.kind == PcodeType::Call),
    {
        self.kind == PcodeType::Call
    }

    fn is_return(&self) -> (r: bool)
        ensures
            r == (self.kind == PcodeType::Ret),
    {
        self.kind == PcodeType::Ret
    }
}

/// Whether two lists of compounds hold the same compounds, one by one.
pub open spec fn same_compounds<V>(a: Seq<GenericCompoundVarnode<V>>, b: Seq<GenericCompoundVarnode<V>>) -> bool {
    a.len() == b.len() && forall|i: int| 0 <= i < a.len() ==> same_compound(#[trigger] a[i], b[i])
}

/// Whether two ops agree in all but their outputs: kind, position, operation, and the
/// inputs, killed and used varnodes.
pub open spec fn same_but_output<V>(a: GenericPcodeOp<GenericCompoundVarnode<V>>, b: GenericPcodeOp<GenericCompoundVarnode<V>>) -> bool {
    &&& a.kind == b.kind
    &&& a.seq == b.seq
    &&& a.opcode == b.opcode
    &&& same_compounds(a.inputs@, b.inputs@)
    &&& same_compounds(a.killed@, b.killed@)
    &&& same_compounds(a.used@, b.used@)
}

fn copy_seq(s: &SeqNum) -> (r: SeqNum)
    ensures
        r == *s,
{
    SeqNum { pc: Address { space: clone_space(&s.pc.space), offset: s.pc.offset }, uniq: s.uniq, order: s.order }
}

fn copy_compounds<V: Vnode>(v: &Vec<GenericCompoundVarnode<V>>) -> (r: Vec<GenericCompoundVarnode<V>>)
    ensures
        same_compounds(r@, v@),
{
    let mut out: Vec<GenericCompoundVarnode<V>> = Vec::new();
    let mut i: usize = 0;
    while i < v.len()
        invariant
            i <= v@.len(),
            out@.len() == i,
            forall|j: int| 0 <= j < i ==> same_compound(#[trigger] out@[j], v@[j]),
        decreases v@.len() - i,
    {
        out.push(v[i].duplicate());
        i = i + 1;
    }
    out
}

impl<V: Vnode> GenericPcodeOp<GenericCompoundVarnode<V>> {
    /// The op with `new_output` as its output.
    pub fn setting_output(&self, new_output: GenericCompoundVarnode<V>) -> (r: Self)
        ensures
            same_but_output(r, *self),
            r.output == Some(new_output),
    {
        GenericPcodeOp {
            kind: self.kind,
            seq: copy_seq(&self.seq),
            opcode: self.opcode,
            inputs: copy_compounds(&self.inputs),
            output: Some(new_output),
            killed: copy_compounds(&self.killed),
            used: copy_compounds(&self.used),
        }
    }

    /// The op with `new_output_part` joined to its output (see `union_with`); an op
    /// without output keeps none. `None` where the union's pieces cannot be coalesced.
    pub fn unioning_output(&self, new_output_part: &GenericCompoundVarnode<V>) -> (r: Option<Self>)
        ensures
            match self.output {
                None => r is Some && same_but_output(r.unwrap(), *self) && r.unwrap().output is None,
                Some(o) => match spec_union_parts(spec_compound_atoms(o.comps), spec_compound_atoms(new_output_part.comps), (*o.reg_sizes)@) {
                    Some(c) => r is Some && same_but_output(r.unwrap(), *self)
                        && (r.unwrap().output matches Some(u) && u.reg_sizes == o.reg_sizes && has_parts(u.comps, c)),
                    None => r is None,
                },
            },
    {
        let output = match &self.output {
            None => None,
            Some(o) => match o.union_with(new_output_part) {
                Some(u) => Some(u),
                None => {
                    return None;
                },
            },
        };
        Some(GenericPcodeOp {
            kind: self.kind,
            seq: copy_seq(&self.seq),
            opcode: self.opcode,
            inputs: copy_compounds(&self.inputs),
            output,
            killed: copy_compounds(&self.killed),
            used: copy_compounds(&self.used),
        })
    }
}

/// The kind of op an operation makes: calls, returns, phi nodes, and the rest.
pub open spec fn spec_kind_of(op: OpCode) -> PcodeType {
    match op {
        OpCode::CALL | OpCode::CALLIND => PcodeType::Call,
        OpCode::RETURN => PcodeType::Ret,
        OpCode::MULTIEQUAL => PcodeType::Phi,
        _ => PcodeType::Default,
    }
}

/// The kind of op an operation makes (see `spec_kind_of`).
pub fn kind_of(op: OpCode) -> (r: PcodeType)
    ensures
        r == spec_kind_of(op),
{
    match op {
        OpCode::CALL | OpCode::CALLIND => PcodeType::Call,
        OpCode::RETURN => PcodeType::Ret,
        OpCode::MULTIEQUAL => PcodeType::Phi,
        _ => PcodeType::Default,
    }
}

/// A decoded instruction of the decompiler library: its address, length, mnemonic,
/// operand text and p-code.
#[derive(Debug)]
pub struct Instruction {
    pub address: super::types::Address,
    pub length: u64,
    pub mnemonic: String,
    pub body: String,
    pub ops: Vec<PcodeOp>,
}

impl Instruction {
    /// The assembly text: the mnemonic, followed by a space and the operands where there are
    /// any.
    pub fn assembly_text(&self) -> (r: String)
        ensures
            r@ == if self.body@.len() > 0 { self.mnemonic@ + " "@ + self.body@ } else { self.mnemonic@ },
    {
        let mut s = self.mnemonic.clone();
        if !self.body.as_str().is_empty() {
            push_str(&mut s, " ");
            push_str(&mut s, self.body.as_str());
        }
        s
    }
}

/// Whether an input is a constant whose top bit is set: the operand that turns an addition
/// into a subtraction of its negation.
pub open spec fn spec_negative_const(v: GenericCompoundVarnode<Varnode>) -> bool {
    match v.comps {
        super::compound::VarnodeComps::Simple(vn) => (vn.space is Const) && vn.offset >= 0x8000000000000000u64,
        super::compound::VarnodeComps::Complex(_) => false,
    }
}

/// The constant that stands for the negation of a negative constant input.
pub open spec fn spec_negated_const(v: GenericCompoundVarnode<Varnode>) -> Varnode {
    let vn = v.comps->Simple_0;
    Varnode { name: None, space: AddressSpace::Const, offset: (0x10000000000000000int - vn.offset) as u64, size: vn.size }
}

/// The operation and inputs an op is built with from the library's raw op: a return drops
/// its first input (the return address space), and an addition of a constant whose top bit
/// is set becomes a subtraction of its negation. `None` where a return has no input or an
/// addition has fewer than two.
pub fn normalize_raw_op(opcode: OpCode, inputs: Vec<GenericCompoundVarnode<Varnode>>) -> (r: Option<(OpCode, Vec<GenericCompoundVarnode<Varnode>>)>)
    ensures
        r is None <==> (opcode == OpCode::RETURN && inputs@.len() == 0) || (opcode == OpCode::INT_ADD && inputs@.len() < 2),
        r is Some && opcode == OpCode::RETURN ==> r.unwrap().0 == OpCode::RETURN && r.unwrap().1@ == inputs@.drop_first(),
        r is Some && opcode == OpCode::INT_ADD && spec_negative_const(inputs@[1]) ==> {
            &&& r.unwrap().0 == OpCode::INT_SUB
            &&& r.unwrap().1@.len() == inputs@.len()
            &&& r.unwrap().1@[1].comps == super::compound::VarnodeComps::Simple(spec_negated_const(inputs@[1]))
            &&& forall|i: int| 0 <= i < inputs@.len() && i != 1 ==> r.unwrap().1@[i] == inputs@[i]
        },
        r is Some && opcode == OpCode::INT_ADD && !spec_negative_const(inputs@[1]) ==> r.unwrap().0 == opcode && r.unwrap().1@ == inputs@,
        r is Some && opcode != OpCode::RETURN && opcode != OpCode::INT_ADD ==> r.unwrap().0 == opcode && r.unwrap().1@ == inputs@,
{
    let mut inputs = inputs;
    if opcode == OpCode::RETURN {
        if inputs.len() == 0 {
            return None;
        }
        let ghost before = inputs@;
        inputs.remove(0);
        assert(inputs@ =~= before.drop_first());
        return Some((opcode, inputs));
    }
    if opcode == OpCode::INT_ADD {
        if inputs.len() < 2 {
            return None;
        }
        let neg = match &inputs[1].comps {
            super::compound::VarnodeComps::Simple(v) => {
                if matches!(v.space, AddressSpace::Const) && (v.offset >> 63) == 1 {
                    let o: u64 = v.offset;
                    assert((o >> 63) == 1 ==> o >= 0x8000000000000000u64) by (bit_vector);
                    assert(o >= 0x8000000000000000u64 ==> (o ^ 0xffffffffffffffffu64) + 1 == 0x10000000000000000int - o) by (bit_vector);
                    Some(((v.offset ^ 0xffffffffffffffff) + 1, v.size))
                } else {
                    let o: u64 = v.offset;
                    assert(o >= 0x8000000000000000u64 ==> (o >> 63) == 1) by (bit_vector);
                    None
                }
            },
            super::compound::VarnodeComps::Complex(_) => None,
        };
        if let Some((off, size)) = neg {
            let c = super::compound::share_table(&inputs[1].reg_sizes);
            let vn = Varnode { name: None, space: AddressSpace::Const, offset: off, size };
            inputs.set(1, GenericCompoundVarnode::new(vn, c));
            return Some((OpCode::INT_SUB, inputs));
        }
        return Some((opcode, inputs));
    }
    Some((opcode, inputs))
}

} // verus!
