//! P-code operations and how they are printed.
use vstd::prelude::*;
use super::opcode::OpCode;
use super::seqnum::SeqNum;
use super::address::{Address, AddressSpace};
use super::varnode::{Varnode, spec_varnode_text, spec_call_target_text};
use crate::text::{chars_of, push_str, push_char, push_dec, push_hex, spec_dec, spec_hex, spec_join, string_of_chars};

verus! {

/// One operation: its sequence number, operation code, inputs and optional output.
#[derive(Clone, Debug)]
pub struct Op<T> {
    pub seq: SeqNum,
    pub opcode: OpCode,
    pub inputs: Vec<T>,
    pub output: Option<T>,
}

/// An operation over varnodes.
pub type PcodeOp = Op<Varnode>;

/// What an operand offers for printing an operation: its text, its text as a declared
/// output, and its text as a call target.
pub trait FmtIface {
    spec fn spec_text(&self) -> Seq<char>;

    spec fn spec_output_text(&self) -> Seq<char>;

    spec fn spec_call_target_text(&self) -> Seq<char>;

    fn to_string(&self) -> (r: String)
        ensures
            r@ == self.spec_text(),
    ;

    fn fmt_output(&self) -> (r: String)
        ensures
            r@ == self.spec_output_text(),
    ;

    fn fmt_call_target(&self) -> (r: String)
        ensures
            r@ == self.spec_call_target_text(),
    ;
}

impl FmtIface for Varnode {
    open spec fn spec_text(&self) -> Seq<char> {
        spec_varnode_text(*self)
    }

    open spec fn spec_output_text(&self) -> Seq<char> {
        spec_varnode_text(*self)
    }

    open spec fn spec_call_target_text(&self) -> Seq<char> {
        spec_call_target_text(*self)
    }

    fn to_string(&self) -> (r: String) {
        Varnode::to_string(self)
    }

    fn fmt_output(&self) -> (r: String) {
        Varnode::to_string(self)
    }

    fn fmt_call_target(&self) -> (r: String) {
        self.call_target_string()
    }
}

/// The texts of a sequence of operands.
pub open spec fn spec_texts<T: FmtIface>(xs: Seq<T>) -> Seq<Seq<char>> {
    xs.map_values(|x: T| x.spec_text())
}

/// The text with its leading `*` characters taken off.
pub open spec fn spec_trim_stars(s: Seq<char>) -> Seq<char>
    decreases s.len(),
{
    if s.len() > 0 && s[0] == '*' {
        spec_trim_stars(s.drop_first())
    } else {
        s
    }
}

/// The text in parentheses when, past its leading `*`s, it holds a space and is not already
/// one parenthesized group; else the text itself.
pub open spec fn spec_parenthesize(s: Seq<char>) -> Seq<char> {
    let t = spec_trim_stars(s);
    if t.contains(' ') && (t[0] != '(' || t.last() != ')') {
        seq!['('] + s + seq![')']
    } else {
        s
    }
}

/// Puts a compound operand in parentheses (see `spec_parenthesize`).
pub fn parenthesize(s: String) -> (r: String)
    requires
        spec_trim_stars(s@).len() > 0,
    ensures
        r@ == spec_parenthesize(s@),
{
    let v = chars_of(s.as_str());
    let n = v.len();
    let mut i: usize = 0;
    assert(v@.subrange(0, n as int) =~= v@);
    while i < n && v[i] == '*'
        invariant
            i <= n == v@.len(),
            spec_trim_stars(v@.subrange(i as int, n as int)) == spec_trim_stars(v@),
        decreases n - i,
    {
        assert(v@.subrange(i as int, n as int).drop_first() =~= v@.subrange(i + 1, n as int));
        i = i + 1;
    }
    let ghost t = v@.subrange(i as int, n as int);
    assert(spec_trim_stars(t) == t);
    let mut has_space = false;
    let mut j: usize = i;
    while j < n
        invariant
            i <= j <= n == v@.len(),
            t == v@.subrange(i as int, n as int),
            has_space == (exists|k: int| i <= k < j && v@[k] == ' '),
        decreases n - j,
    {
        if v[j] == ' ' {
            has_space = true;
        }
        j = j + 1;
    }
    assert(has_space == t.contains(' ')) by {
        if has_space {
            let k = choose|k: int| i <= k < n && v@[k] == ' ';
            assert(t[k - i] == ' ');
        }
        if t.contains(' ') {
            let k = choose|k: int| 0 <= k < t.len() && t[k] == ' ';
            assert(v@[k + i] == ' ');
        }
    }
    if has_space && (v[i] != '(' || v[n - 1] != ')') {
        let mut r = String::new();
        push_char(&mut r, '(');
        push_str(&mut r, s.as_str());
        push_char(&mut r, ')');
        assert(seq!['('] + s@ + seq![')'] =~= seq!['('].add(s@).push(')'));
        assert(seq!['('].add(s@) =~= seq![].push('(') + s@);
        r
    } else {
        s
    }
}

/// Appends the texts of `items[start..]`, separated by `, `.
fn push_joined<T: FmtIface>(s: &mut String, items: &[T], start: usize)
    requires
        start <= items@.len(),
    ensures
        final(s)@ == old(s)@ + spec_join(
            spec_texts(items@).subrange(start as int, items@.len() as int),
            ", "@,
        ),
{
    let mut i = start;
    let ghost ts = spec_texts(items@);
    assert(ts.subrange(start as int, start as int) =~= Seq::<Seq<char>>::empty());
    assert(old(s)@ + seq![] =~= old(s)@);
    while i < items.len()
        invariant
            start <= i <= items@.len(),
            ts == spec_texts(items@),
            s@ == old(s)@ + spec_join(ts.subrange(start as int, i as int), ", "@),
        decreases items@.len() - i,
    {
        let ghost prev = ts.subrange(start as int, i as int);
        assert(ts.subrange(start as int, i + 1) =~= prev.push(ts[i as int]));
        assert(prev.push(ts[i as int]).drop_last() =~= prev);
        if i > start {
            push_str(s, ", ");
        } else {
            assert(prev.push(ts[i as int]) =~= seq![ts[i as int]]);
        }
        let t = items[i].to_string();
        push_str(s, t.as_str());
        i = i + 1;
    }
}

/// `opstr(input0)`.
pub open spec fn spec_fmt_unary(opstr: Seq<char>, ts: Seq<Seq<char>>) -> Seq<char> {
    opstr + "("@ + ts[0] + ")"@
}

/// `input0 opstr input1`, each operand parenthesized where it is compound.
pub open spec fn spec_fmt_binary(opstr: Seq<char>, ts: Seq<Seq<char>>) -> Seq<char> {
    spec_parenthesize(ts[0]) + " "@ + opstr + " "@ + spec_parenthesize(ts[1])
}

/// `opstr(input0, input1, ...)`.
pub open spec fn spec_fmt_func(opstr: Seq<char>, ts: Seq<Seq<char>>) -> Seq<char> {
    opstr + "("@ + spec_join(ts, ", "@) + ")"@
}

fn fmt_unary<T: FmtIface>(opstr: &str, inputs: &[T]) -> (r: String)
    requires
        inputs@.len() >= 1,
    ensures
        r@ == spec_fmt_unary(opstr@, spec_texts(inputs@)),
{
    let mut s = String::new();
    push_str(&mut s, opstr);
    push_str(&mut s, "(");
    let t = inputs[0].to_string();
    push_str(&mut s, t.as_str());
    push_str(&mut s, ")");
    s
}

fn fmt_binary<T: FmtIface>(opstr: &str, inputs: &[T]) -> (r: String)
    requires
        inputs@.len() >= 2,
        spec_trim_stars(inputs@[0].spec_text()).len() > 0,
        spec_trim_stars(inputs@[1].spec_text()).len() > 0,
    ensures
        r@ == spec_fmt_binary(opstr@, spec_texts(inputs@)),
{
    let lhs = parenthesize(inputs[0].to_string());
    let rhs = parenthesize(inputs[1].to_string());
    let mut s = String::new();
    push_str(&mut s, lhs.as_str());
    push_str(&mut s, " ");
    push_str(&mut s, opstr);
    push_str(&mut s, " ");
    push_str(&mut s, rhs.as_str());
    assert(s@ =~= spec_fmt_binary(opstr@, spec_texts(inputs@)));
    s
}

fn fmt_func<T: FmtIface>(opstr: &str, inputs: &[T]) -> (r: String)
    ensures
        r@ == spec_fmt_func(opstr@, spec_texts(inputs@)),
{
    let mut s = String::new();
    push_str(&mut s, opstr);
    push_str(&mut s, "(");
    push_joined(&mut s, inputs, 0);
    push_str(&mut s, ")");
    assert(spec_texts(inputs@).subrange(0, inputs@.len() as int) =~= spec_texts(inputs@));
    s
}

/// The name under which an operation is printed as a function call of all its inputs.
pub open spec fn spec_func_name(op: OpCode) -> Option<Seq<char>> {
    match op {
        OpCode::MultiEqual => Some("phi"@),
        OpCode::CPoolRef => Some("cpool"@),
        OpCode::FloatAbs => Some("abs"@),
        OpCode::FloatCeil => Some("ceil"@),
        OpCode::FloatFloat2Float => Some("float2float"@),
        OpCode::FloatFloor => Some("floor"@),
        OpCode::FloatInt2Float => Some("float"@),
        OpCode::FloatNan => Some("nan"@),
        OpCode::FloatRound => Some("round"@),
        OpCode::FloatSqrt => Some("sqrt"@),
        OpCode::FloatTrunc => Some("trunc"@),
        OpCode::IntCarry => Some("carry"@),
        OpCode::IntSBorrow => Some("sborrow"@),
        OpCode::IntSCarry => Some("scarry"@),
        OpCode::IntSext => Some("sext"@),
        OpCode::IntZext => Some("zext"@),
        OpCode::New => Some("newobject"@),
        OpCode::PopCount => Some("popcount"@),
        OpCode::CallOther => Some("callother"@),
        _ => None,
    }
}

fn func_name(op: OpCode) -> (r: Option<&'static str>)
    ensures
        match r {
            Some(t) => spec_func_name(op) == Some(t@),
            None => spec_func_name(op) is None,
        },
{
    match op {
        OpCode::MultiEqual => Some("phi"),
        OpCode::CPoolRef => Some("cpool"),
        OpCode::FloatAbs => Some("abs"),
        OpCode::FloatCeil => Some("ceil"),
        OpCode::FloatFloat2Float => Some("float2float"),
        OpCode::FloatFloor => Some("floor"),
        OpCode::FloatInt2Float => Some("float"),
        OpCode::FloatNan => Some("nan"),
        OpCode::FloatRound => Some("round"),
        OpCode::FloatSqrt => Some("sqrt"),
        OpCode::FloatTrunc => Some("trunc"),
        OpCode::IntCarry => Some("carry"),
        OpCode::IntSBorrow => Some("sborrow"),
        OpCode::IntSCarry => Some("scarry"),
        OpCode::IntSext => Some("sext"),
        OpCode::IntZext => Some("zext"),
        OpCode::New => Some("newobject"),
        OpCode::PopCount => Some("popcount"),
        OpCode::CallOther => Some("callother"),
        _ => None,
    }
}

/// The infix operator of an operation printed between its two inputs.
pub open spec fn spec_binary_name(op: OpCode) -> Option<Seq<char>> {
    match op {
        OpCode::BoolAnd => Some("&&"@),
        OpCode::BoolOr => Some("||"@),
        OpCode::BoolXor => Some("^^"@),
        OpCode::FloatAdd => Some("f+"@),
        OpCode::FloatDiv => Some("f/"@),
        OpCode::FloatEqual => Some("f=="@),
        OpCode::FloatLess => Some("f<"@),
        OpCode::FloatLessEqual => Some("f<="@),
        OpCode::FloatMult => Some("f*"@),
        OpCode::FloatNotEqual => Some("f!="@),
        OpCode::FloatSub => Some("f-"@),
        OpCode::IntAdd => Some("+"@),
        OpCode::IntAnd => Some("&"@),
        OpCode::IntDiv => Some("/"@),
        OpCode::IntEqual => Some("=="@),
        OpCode::IntLess => Some("<"@),
        OpCode::IntGreater => Some(">"@),
        OpCode::IntLeft => Some("<<"@),
        OpCode::IntLessEqual => Some("<="@),
        OpCode::IntGreaterEqual => Some(">="@),
        OpCode::IntMult => Some("*"@),
        OpCode::IntNotEqual => Some("!="@),
        OpCode::IntOr => Some("|"@),
        OpCode::IntRem => Some("%"@),
        OpCode::IntRight => Some(">>"@),
        OpCode::IntSDiv => Some("s/"@),
        OpCode::IntSLess => Some("s<"@),
        OpCode::IntSLessEqual => Some("s<="@),
        OpCode::IntSGreater => Some("s>"@),
        OpCode::IntSGreaterEqual => Some("s>="@),
        OpCode::IntSRem => Some("s%"@),
        OpCode::IntSRight => Some("s>>"@),
        OpCode::IntSub => Some("-"@),
        OpCode::IntXor => Some("^"@),
        _ => None,
    }
}

/// The operation whose infix operator is `s`, read back.
spec fn spec_binary_op_of(s: Seq<char>) -> Option<OpCode> {
    if s == "&&"@ {
        Some(OpCode::BoolAnd)
    } else if s == "||"@ {
        Some(OpCode::BoolOr)
    } else if s == "^^"@ {
        Some(OpCode::BoolXor)
    } else if s == "f+"@ {
        Some(OpCode::FloatAdd)
    } else if s == "f/"@ {
        Some(OpCode::FloatDiv)
    } else if s == "f=="@ {
        Some(OpCode::FloatEqual)
    } else if s == "f<"@ {
        Some(OpCode::FloatLess)
    } else if s == "f<="@ {
        Some(OpCode::FloatLessEqual)
    } else if s == "f*"@ {
        Some(OpCode::FloatMult)
    } else if s == "f!="@ {
        Some(OpCode::FloatNotEqual)
    } else if s == "f-"@ {
        Some(OpCode::FloatSub)
    } else if s == "+"@ {
        Some(OpCode::IntAdd)
    } else if s == "&"@ {
        Some(OpCode::IntAnd)
    } else if s == "/"@ {
        Some(OpCode::IntDiv)
    } else if s == "=="@ {
        Some(OpCode::IntEqual)
    } else if s == "<"@ {
        Some(OpCode::IntLess)
    } else if s == ">"@ {
        Some(OpCode::IntGreater)
    } else if s == "<<"@ {
        Some(OpCode::IntLeft)
    } else if s == "<="@ {
        Some(OpCode::IntLessEqual)
    } else if s == ">="@ {
        Some(OpCode::IntGreaterEqual)
    } else if s == "*"@ {
        Some(OpCode::IntMult)
    } else if s == "!="@ {
        Some(OpCode::IntNotEqual)
    } else if s == "|"@ {
        Some(OpCode::IntOr)
    } else if s == "%"@ {
        Some(OpCode::IntRem)
    } else if s == ">>"@ {
        Some(OpCode::IntRight)
    } else if s == "s/"@ {
        Some(OpCode::IntSDiv)
    } else if s == "s<"@ {
        Some(OpCode::IntSLess)
    } else if s == "s<="@ {
        Some(OpCode::IntSLessEqual)
    } else if s == "s>"@ {
        Some(OpCode::IntSGreater)
    } else if s == "s>="@ {
        Some(OpCode::IntSGreaterEqual)
    } else if s == "s%"@ {
        Some(OpCode::IntSRem)
    } else if s == "s>>"@ {
        Some(OpCode::IntSRight)
    } else if s == "-"@ {
        Some(OpCode::IntSub)
    } else if s == "^"@ {
        Some(OpCode::IntXor)
    } else {
        None
    }
}

proof fn lemma_binary_name_decodes(op: OpCode)
    requires
        spec_binary_name(op) is Some,
    ensures
        spec_binary_op_of(spec_binary_name(op).unwrap()) == Some(op),
{
    reveal_strlit("&&");
    assert("&&"@.len() == 2 && "&&"@[0] == '&' && "&&"@[1] == '&');
    reveal_strlit("||");
    assert("||"@.len() == 2 && "||"@[0] == '|' && "||"@[1] == '|');
    reveal_strlit("^^");
    assert("^^"@.len() == 2 && "^^"@[0] == '^' && "^^"@[1] == '^');
    reveal_strlit("f+");
    assert("f+"@.len() == 2 && "f+"@[0] == 'f' && "f+"@[1] == '+');
    reveal_strlit("f/");
    assert("f/"@.len() == 2 && "f/"@[0] == 'f' && "f/"@[1] == '/');
    reveal_strlit("f==");
    assert("f=="@.len() == 3 && "f=="@[0] == 'f' && "f=="@[1] == '=' && "f=="@[2] == '=');
    reveal_strlit("f<");
    assert("f<"@.len() == 2 && "f<"@[0] == 'f' && "f<"@[1] == '<');
    reveal_strlit("f<=");
    assert("f<="@.len() == 3 && "f<="@[0] == 'f' && "f<="@[1] == '<' && "f<="@[2] == '=');
    reveal_strlit("f*");
    assert("f*"@.len() == 2 && "f*"@[0] == 'f' && "f*"@[1] == '*');
    reveal_strlit("f!=");
    assert("f!="@.len() == 3 && "f!="@[0] == 'f' && "f!="@[1] == '!' && "f!="@[2] == '=');
    reveal_strlit("f-");
    assert("f-"@.len() == 2 && "f-"@[0] == 'f' && "f-"@[1] == '-');
    reveal_strlit("+");
    assert("+"@.len() == 1 && "+"@[0] == '+');
    reveal_strlit("&");
    assert("&"@.len() == 1 && "&"@[0] == '&');
    reveal_strlit("/");
    assert("/"@.len() == 1 && "/"@[0] == '/');
    reveal_strlit("==");
    assert("=="@.len() == 2 && "=="@[0] == '=' && "=="@[1] == '=');
    reveal_strlit("<");
    assert("<"@.len() == 1 && "<"@[0] == '<');
    reveal_strlit(">");
    assert(">"@.len() == 1 && ">"@[0] == '>');
    reveal_strlit("<<");
    assert("<<"@.len() == 2 && "<<"@[0] == '<' && "<<"@[1] == '<');
    reveal_strlit("<=");
    assert("<="@.len() == 2 && "<="@[0] == '<' && "<="@[1] == '=');
    reveal_strlit(">=");
    assert(">="@.len() == 2 && ">="@[0] == '>' && ">="@[1] == '=');
    reveal_strlit("*");
    assert("*"@.len() == 1 && "*"@[0] == '*');
    reveal_strlit("!=");
    assert("!="@.len() == 2 && "!="@[0] == '!' && "!="@[1] == '=');
    reveal_strlit("|");
    assert("|"@.len() == 1 && "|"@[0] == '|');
    reveal_strlit("%");
    assert("%"@.len() == 1 && "%"@[0] == '%');
    reveal_strlit(">>");
    assert(">>"@.len() == 2 && ">>"@[0] == '>' && ">>"@[1] == '>');
    reveal_strlit("s/");
    assert("s/"@.len() == 2 && "s/"@[0] == 's' && "s/"@[1] == '/');
    reveal_strlit("s<");
    assert("s<"@.len() == 2 && "s<"@[0] == 's' && "s<"@[1] == '<');
    reveal_strlit("s<=");
    assert("s<="@.len() == 3 && "s<="@[0] == 's' && "s<="@[1] == '<' && "s<="@[2] == '=');
    reveal_strlit("s>");
    assert("s>"@.len() == 2 && "s>"@[0] == 's' && "s>"@[1] == '>');
    reveal_strlit("s>=");
    assert("s>="@.len() == 3 && "s>="@[0] == 's' && "s>="@[1] == '>' && "s>="@[2] == '=');
    reveal_strlit("s%");
    assert("s%"@.len() == 2 && "s%"@[0] == 's' && "s%"@[1] == '%');
    reveal_strlit("s>>");
    assert("s>>"@.len() == 3 && "s>>"@[0] == 's' && "s>>"@[1] == '>' && "s>>"@[2] == '>');
    reveal_strlit("-");
    assert("-"@.len() == 1 && "-"@[0] == '-');
    reveal_strlit("^");
    assert("^"@.len() == 1 && "^"@[0] == '^');
}

/// No two operations print with the same infix operator: where two operations have the
/// same one, they are the same operation.
pub proof fn lemma_binary_name_injective(a: OpCode, b: OpCode)
    requires
        spec_binary_name(a) is Some,
        spec_binary_name(a) == spec_binary_name(b),
    ensures
        a == b,
{
    lemma_binary_name_decodes(a);
    lemma_binary_name_decodes(b);
}

/// The plain printer too writes each binary operation with an operator of its own.
pub proof fn lemma_plain_binary_name_injective(a: OpCode, b: OpCode)
    requires
        spec_plain_binary_name(a) is Some,
        spec_plain_binary_name(a) == spec_plain_binary_name(b),
    ensures
        a == b,
{
    lemma_binary_name_injective(a, b);
}

/// An addition prints as `a + b` and a subtraction as `a - b`, whatever the inputs, and the
/// two operators differ.
pub proof fn lemma_add_sub_print<T: FmtIface>(xs: Seq<T>, size: u64)
    ensures
        spec_fmt_inputs(OpCode::IntAdd, xs, size) == spec_parenthesize(spec_texts(xs)[0]) + " + "@
            + spec_parenthesize(spec_texts(xs)[1]),
        spec_fmt_inputs(OpCode::IntSub, xs, size) == spec_parenthesize(spec_texts(xs)[0]) + " - "@
            + spec_parenthesize(spec_texts(xs)[1]),
        " + "@ != " - "@,
{
    let a = spec_parenthesize(spec_texts(xs)[0]);
    let b = spec_parenthesize(spec_texts(xs)[1]);
    reveal_strlit(" ");
    reveal_strlit("+");
    reveal_strlit("-");
    reveal_strlit(" + ");
    reveal_strlit(" - ");
    assert(a + " "@ + "+"@ + " "@ + b =~= a + " + "@ + b);
    assert(a + " "@ + "-"@ + " "@ + b =~= a + " - "@ + b);
    assert(" + "@[1] != " - "@[1]);
}

fn binary_name(op: OpCode) -> (r: Option<&'static str>)
    ensures
        match r {
            Some(t) => spec_binary_name(op) == Some(t@),
            None => spec_binary_name(op) is None,
        },
{
    match op {
        OpCode::BoolAnd => Some("&&"),
        OpCode::BoolOr => Some("||"),
        OpCode::BoolXor => Some("^^"),
        OpCode::FloatAdd => Some("f+"),
        OpCode::FloatDiv => Some("f/"),
        OpCode::FloatEqual => Some("f=="),
        OpCode::FloatLess => Some("f<"),
        OpCode::FloatLessEqual => Some("f<="),
        OpCode::FloatMult => Some("f*"),
        OpCode::FloatNotEqual => Some("f!="),
        OpCode::FloatSub => Some("f-"),
        OpCode::IntAdd => Some("+"),
        OpCode::IntAnd => Some("&"),
        OpCode::IntDiv => Some("/"),
        OpCode::IntEqual => Some("=="),
        OpCode::IntLess => Some("<"),
        OpCode::IntGreater => Some(">"),
        OpCode::IntLeft => Some("<<"),
        OpCode::IntLessEqual => Some("<="),
        OpCode::IntGreaterEqual => Some(">="),
        OpCode::IntMult => Some("*"),
        OpCode::IntNotEqual => Some("!="),
        OpCode::IntOr => Some("|"),
        OpCode::IntRem => Some("%"),
        OpCode::IntRight => Some(">>"),
        OpCode::IntSDiv => Some("s/"),
        OpCode::IntSLess => Some("s<"),
        OpCode::IntSLessEqual => Some("s<="),
        OpCode::IntSGreater => Some("s>"),
        OpCode::IntSGreaterEqual => Some("s>="),
        OpCode::IntSRem => Some("s%"),
        OpCode::IntSRight => Some("s>>"),
        OpCode::IntSub => Some("-"),
        OpCode::IntXor => Some("^"),
        _ => None,
    }
}

/// The prefix operator of an operation printed before its one input.
pub open spec fn spec_unary_name(op: OpCode) -> Option<Seq<char>> {
    match op {
        OpCode::IntNegate => Some("~"@),
        OpCode::BoolNegate => Some("!"@),
        OpCode::FloatNeg => Some("f-"@),
        OpCode::Int2Comp => Some("-"@),
        _ => None,
    }
}

fn unary_name(op: OpCode) -> (r: Option<&'static str>)
    ensures
        match r {
            Some(t) => spec_unary_name(op) == Some(t@),
            None => spec_unary_name(op) is None,
        },
{
    match op {
        OpCode::IntNegate => Some("~"),
        OpCode::BoolNegate => Some("!"),
        OpCode::FloatNeg => Some("f-"),
        OpCode::Int2Comp => Some("-"),
        _ => None,
    }
}

/// The operations printed in a form of their own.
pub open spec fn spec_is_special(op: OpCode) -> bool {
    match op {
        OpCode::Copy | OpCode::Decl | OpCode::DeclCopy | OpCode::Store | OpCode::Load
        | OpCode::Deref | OpCode::FieldAccess | OpCode::FieldDeref | OpCode::ArrayIndex
        | OpCode::AddrOf | OpCode::Branch | OpCode::BranchInd | OpCode::Call | OpCode::CallInd
        | OpCode::CBranch | OpCode::Return | OpCode::SubPiece | OpCode::Truncate
        | OpCode::Switch => true,
        _ => false,
    }
}

/// Whether the printer knows the operation.
pub open spec fn spec_formattable(op: OpCode) -> bool {
    spec_func_name(op) is Some || spec_binary_name(op) is Some || spec_unary_name(op) is Some
        || spec_is_special(op)
}

/// How many inputs the printed form of the operation reads.
pub open spec fn spec_min_inputs(op: OpCode) -> nat {
    if spec_binary_name(op) is Some {
        2
    } else if spec_unary_name(op) is Some {
        1
    } else {
        match op {
            OpCode::Store | OpCode::FieldAccess | OpCode::FieldDeref | OpCode::ArrayIndex
            | OpCode::CBranch | OpCode::SubPiece | OpCode::Truncate => 2,
            OpCode::Copy | OpCode::Decl | OpCode::DeclCopy | OpCode::Load | OpCode::Deref
            | OpCode::AddrOf | OpCode::Branch | OpCode::BranchInd | OpCode::Call
            | OpCode::CallInd | OpCode::Switch => 1,
            _ => 0,
        }
    }
}

/// How many leading inputs are passed through `parenthesize`.
pub open spec fn spec_paren_count(op: OpCode) -> nat {
    if spec_binary_name(op) is Some {
        2
    } else {
        match op {
            OpCode::Store | OpCode::Load | OpCode::Deref | OpCode::FieldAccess
            | OpCode::FieldDeref | OpCode::ArrayIndex | OpCode::Truncate => 1,
            _ => 0,
        }
    }
}

/// Whether `fmt_inputs` accepts the operation with these inputs: the operation is one the
/// printer knows, the inputs it reads are there, and those it parenthesizes are not
/// empty past their leading `*`s.
pub open spec fn spec_can_format<T: FmtIface>(op: OpCode, xs: Seq<T>) -> bool {
    &&& spec_formattable(op)
    &&& xs.len() >= spec_min_inputs(op)
    &&& forall|i: int| 0 <= i < spec_paren_count(op) ==> spec_trim_stars(
        #[trigger] xs[i].spec_text(),
    ).len() > 0
}

/// The printed form of the operations that have one of their own.
pub open spec fn spec_fmt_special<T: FmtIface>(op: OpCode, xs: Seq<T>, size: u64) -> Seq<char> {
    let ts = spec_texts(xs);
    match op {
        OpCode::Copy => ts[0],
        OpCode::Decl => xs[0].spec_output_text(),
        OpCode::DeclCopy => ts[0],
        OpCode::Store => "*"@ + spec_parenthesize(ts[0]) + " = "@ + ts[1],
        OpCode::Load => "*"@ + spec_parenthesize(ts[0]),
        OpCode::Deref => "*"@ + spec_parenthesize(ts[0]) + ":"@ + spec_dec(size as nat),
        OpCode::FieldAccess => spec_parenthesize(ts[0]) + "."@ + ts[1],
        OpCode::FieldDeref => spec_parenthesize(ts[0]) + "->"@ + ts[1],
        OpCode::ArrayIndex => spec_parenthesize(ts[0]) + "["@ + ts[1] + "]"@,
        OpCode::AddrOf => "&"@ + ts[0],
        OpCode::Branch => "\x1b[38;5;105mgoto\x1b[0m "@ + ts[0],
        OpCode::BranchInd => "\x1b[38;5;105mgoto\x1b[0m ["@ + ts[0] + "]"@,
        OpCode::Call => xs[0].spec_call_target_text() + "("@ + spec_join(ts.drop_first(), ", "@)
            + ")"@,
        OpCode::CallInd => "*("@ + ts[0] + ")("@ + spec_join(ts.drop_first(), ", "@) + ")"@,
        OpCode::CBranch => "\x1b[38;5;105mif\x1b[0m ("@ + ts[1] + ") \x1b[38;5;105mgoto\x1b[0m "@
            + ts[0],
        OpCode::Return => "\x1b[38;5;105mreturn\x1b[0m"@ + " "@ + spec_join(ts, ", "@),
        OpCode::SubPiece => "("@ + ts[0] + ")("@ + ts[1] + ")"@,
        OpCode::Truncate => spec_parenthesize(ts[0]) + ":"@ + ts[1],
        OpCode::Switch => "\x1b[38;5;105mswitch\x1b[0m ("@ + ts[0] + ")"@,
        _ => seq![],
    }
}

/// The printed form of an operation's inputs; `size` is the width printed after a
/// dereference.
pub open spec fn spec_fmt_inputs<T: FmtIface>(op: OpCode, xs: Seq<T>, size: u64) -> Seq<char> {
    match spec_func_name(op) {
        Some(n) => spec_fmt_func(n, spec_texts(xs)),
        None => match spec_binary_name(op) {
            Some(n) => spec_fmt_binary(n, spec_texts(xs)),
            None => match spec_unary_name(op) {
                Some(n) => spec_fmt_unary(n, spec_texts(xs)),
                None => spec_fmt_special(op, xs, size),
            },
        },
    }
}

/// Builds `a + b`.
fn cat2(a: &str, b: &str) -> (r: String)
    ensures
        r@ == a@ + b@,
{
    let mut s = String::new();
    push_str(&mut s, a);
    push_str(&mut s, b);
    assert(seq![] + a@ + b@ =~= a@ + b@);
    s
}

/// Builds `a + b + c`.
fn cat3(a: &str, b: &str, c: &str) -> (r: String)
    ensures
        r@ == a@ + b@ + c@,
{
    let mut s = String::new();
    push_str(&mut s, a);
    push_str(&mut s, b);
    push_str(&mut s, c);
    assert(seq![] + a@ + b@ + c@ =~= a@ + b@ + c@);
    s
}

fn fmt_special<T: FmtIface>(opcode: OpCode, inputs: &[T], size: u64) -> (r: String)
    requires
        spec_is_special(opcode),
        spec_can_format(opcode, inputs@),
    ensures
        r@ == spec_fmt_special(opcode, inputs@, size),
{
    let ghost ts = spec_texts(inputs@);
    assert(inputs@.len() >= 1 ==> ts[0] == inputs@[0].spec_text());
    assert(inputs@.len() >= 2 ==> ts[1] == inputs@[1].spec_text());
    assert(spec_paren_count(opcode) >= 1 ==> spec_trim_stars(inputs@[0].spec_text()).len() > 0);
    match opcode {
        OpCode::Copy | OpCode::DeclCopy => inputs[0].to_string(),
        OpCode::Decl => inputs[0].fmt_output(),
        OpCode::Store => {
            let p = parenthesize(inputs[0].to_string());
            let t = inputs[1].to_string();
            let mut s = cat3("*", p.as_str(), " = ");
            push_str(&mut s, t.as_str());
            s
        },
        OpCode::Load => {
            let p = parenthesize(inputs[0].to_string());
            cat2("*", p.as_str())
        },
        OpCode::Deref => {
            let p = parenthesize(inputs[0].to_string());
            let mut s = cat3("*", p.as_str(), ":");
            push_dec(&mut s, size);
            s
        },
        OpCode::FieldAccess => {
            let p = parenthesize(inputs[0].to_string());
            let t = inputs[1].to_string();
            cat3(p.as_str(), ".", t.as_str())
        },
        OpCode::FieldDeref => {
            let p = parenthesize(inputs[0].to_string());
            let t = inputs[1].to_string();
            cat3(p.as_str(), "->", t.as_str())
        },
        OpCode::ArrayIndex => {
            let p = parenthesize(inputs[0].to_string());
            let t = inputs[1].to_string();
            let mut s = cat3(p.as_str(), "[", t.as_str());
            push_str(&mut s, "]");
            s
        },
        OpCode::AddrOf => {
            let t = inputs[0].to_string();
            cat2("&", t.as_str())
        },
        OpCode::Branch => {
            let t = inputs[0].to_string();
            cat2("\x1b[38;5;105mgoto\x1b[0m ", t.as_str())
        },
        OpCode::BranchInd => {
            let t = inputs[0].to_string();
            cat3("\x1b[38;5;105mgoto\x1b[0m [", t.as_str(), "]")
        },
        OpCode::Call => {
            let c = inputs[0].fmt_call_target();
            let mut s = cat2(c.as_str(), "(");
            push_joined(&mut s, inputs, 1);
            push_str(&mut s, ")");
            assert(ts.subrange(1, inputs@.len() as int) =~= ts.drop_first());
            s
        },
        OpCode::CallInd => {
            let t = inputs[0].to_string();
            let mut s = cat3("*(", t.as_str(), ")(");
            push_joined(&mut s, inputs, 1);
            push_str(&mut s, ")");
            assert(ts.subrange(1, inputs@.len() as int) =~= ts.drop_first());
            s
        },
        OpCode::CBranch => {
            let t1 = inputs[1].to_string();
            let t0 = inputs[0].to_string();
            let mut s = cat3("\x1b[38;5;105mif\x1b[0m (", t1.as_str(), ") \x1b[38;5;105mgoto\x1b[0m ");
            push_str(&mut s, t0.as_str());
            s
        },
        OpCode::Return => {
            let mut s = cat2("\x1b[38;5;105mreturn\x1b[0m", " ");
            push_joined(&mut s, inputs, 0);
            assert(ts.subrange(0, inputs@.len() as int) =~= ts);
            s
        },
        OpCode::SubPiece => {
            let t0 = inputs[0].to_string();
            let t1 = inputs[1].to_string();
            let mut s = cat3("(", t0.as_str(), ")(");
            push_str(&mut s, t1.as_str());
            push_str(&mut s, ")");
            s
        },
        OpCode::Truncate => {
            let p = parenthesize(inputs[0].to_string());
            let t = inputs[1].to_string();
            cat3(p.as_str(), ":", t.as_str())
        },
        _ => {
            let t = inputs[0].to_string();
            cat3("\x1b[38;5;105mswitch\x1b[0m (", t.as_str(), ")")
        },
    }
}

/// The printed form of an operation's inputs, as `spec_fmt_inputs` states it.
pub fn fmt_inputs<T: FmtIface>(opcode: OpCode, inputs: &[T], size: u64) -> (r: String)
    requires
        spec_can_format(opcode, inputs@),
    ensures
        r@ == spec_fmt_inputs(opcode, inputs@, size),
{
    if let Some(n) = func_name(opcode) {
        return fmt_func(n, inputs);
    }
    if let Some(n) = binary_name(opcode) {
        assert(spec_trim_stars(inputs@[0].spec_text()).len() > 0);
        assert(spec_trim_stars(inputs@[1].spec_text()).len() > 0);
        return fmt_binary(n, inputs);
    }
    if let Some(n) = unary_name(opcode) {
        return fmt_unary(n, inputs);
    }
    fmt_special(opcode, inputs, size)
}

/// The printed form of an operation's output: `out = `, or nothing.
pub open spec fn spec_fmt_output<T: FmtIface>(opcode: OpCode, output: Option<T>) -> Seq<char> {
    match output {
        Some(v) => if opcode == OpCode::DeclCopy {
            v.spec_output_text() + " = "@
        } else {
            v.spec_text() + " = "@
        },
        None => seq![],
    }
}

fn fmt_output<T: FmtIface>(opcode: OpCode, output: Option<&T>) -> (r: String)
    ensures
        r@ == spec_fmt_output(opcode, match output {
            Some(v) => Some(*v),
            None => None,
        }),
{
    match output {
        Some(v) => {
            let t = if opcode == OpCode::DeclCopy {
                v.fmt_output()
            } else {
                v.to_string()
            };
            cat2(t.as_str(), " = ")
        },
        None => String::new(),
    }
}

fn is_special(op: OpCode) -> (r: bool)
    ensures
        r == spec_is_special(op),
{
    match op {
        OpCode::Copy | OpCode::Decl | OpCode::DeclCopy | OpCode::Store | OpCode::Load
        | OpCode::Deref | OpCode::FieldAccess | OpCode::FieldDeref | OpCode::ArrayIndex
        | OpCode::AddrOf | OpCode::Branch | OpCode::BranchInd | OpCode::Call | OpCode::CallInd
        | OpCode::CBranch | OpCode::Return | OpCode::SubPiece | OpCode::Truncate
        | OpCode::Switch => true,
        _ => false,
    }
}

fn min_inputs(op: OpCode) -> (r: usize)
    ensures
        r == spec_min_inputs(op),
{
    if binary_name(op).is_some() {
        2
    } else if unary_name(op).is_some() {
        1
    } else {
        match op {
            OpCode::Store | OpCode::FieldAccess | OpCode::FieldDeref | OpCode::ArrayIndex
            | OpCode::CBranch | OpCode::SubPiece | OpCode::Truncate => 2,
            OpCode::Copy | OpCode::Decl | OpCode::DeclCopy | OpCode::Load | OpCode::Deref
            | OpCode::AddrOf | OpCode::Branch | OpCode::BranchInd | OpCode::Call
            | OpCode::CallInd | OpCode::Switch => 1,
            _ => 0,
        }
    }
}

fn paren_count(op: OpCode) -> (r: usize)
    ensures
        r == spec_paren_count(op),
{
    if binary_name(op).is_some() {
        2
    } else {
        match op {
            OpCode::Store | OpCode::Load | OpCode::Deref | OpCode::FieldAccess
            | OpCode::FieldDeref | OpCode::ArrayIndex | OpCode::Truncate => 1,
            _ => 0,
        }
    }
}

fn trimmed_nonempty(s: &str) -> (r: bool)
    ensures
        r == (spec_trim_stars(s@).len() > 0),
{
    let v = chars_of(s);
    let n = v.len();
    let mut i: usize = 0;
    assert(v@.subrange(0, n as int) =~= v@);
    while i < n && v[i] == '*'
        invariant
            i <= n == v@.len(),
            spec_trim_stars(v@.subrange(i as int, n as int)) == spec_trim_stars(v@),
        decreases n - i,
    {
        assert(v@.subrange(i as int, n as int).drop_first() =~= v@.subrange(i + 1, n as int));
        i = i + 1;
    }
    assert(spec_trim_stars(v@.subrange(i as int, n as int)) == v@.subrange(i as int, n as int));
    i < n
}

/// Whether `fmt_inputs` accepts the operation with these inputs (see `spec_can_format`).
pub fn can_format<T: FmtIface>(opcode: OpCode, inputs: &[T]) -> (r: bool)
    ensures
        r == spec_can_format(opcode, inputs@),
{
    if !(func_name(opcode).is_some() || binary_name(opcode).is_some() || unary_name(opcode).is_some()
        || is_special(opcode)) {
        return false;
    }
    if inputs.len() < min_inputs(opcode) {
        return false;
    }
    let k = paren_count(opcode);
    let mut i: usize = 0;
    while i < k
        invariant
            i <= k == spec_paren_count(opcode),
            inputs@.len() >= spec_min_inputs(opcode),
            k <= spec_min_inputs(opcode),
            forall|j: int| 0 <= j < i ==> spec_trim_stars(#[trigger] inputs@[j].spec_text()).len() > 0,
        decreases k - i,
    {
        let t = inputs[i].to_string();
        if !trimmed_nonempty(t.as_str()) {
            return false;
        }
        i = i + 1;
    }
    true
}

/// The printed form of an operation: output, then inputs.
pub open spec fn spec_op_text<T: FmtIface>(op: Op<T>) -> Seq<char> {
    spec_fmt_output(op.opcode, op.output) + spec_fmt_inputs(op.opcode, op.inputs@, 0)
}

impl<T: FmtIface> Op<T> {
    /// An operation with the given parts.
    pub fn new(seq: SeqNum, opcode: OpCode, inputs: Vec<T>, output: Option<T>) -> (r: Self)
        ensures
            r.seq == seq,
            r.opcode == opcode,
            r.inputs == inputs,
            r.output == output,
    {
        Op { seq, opcode, inputs, output }
    }

    /// Whether the operation is a direct or indirect call.
    pub fn is_call(&self) -> (r: bool)
        ensures
            r == (self.opcode == OpCode::Call || self.opcode == OpCode::CallInd),
    {
        self.opcode == OpCode::Call || self.opcode == OpCode::CallInd
    }

    /// The printed form of the output part.
    pub fn fmt_output(&self) -> (r: String)
        ensures
            r@ == spec_fmt_output(self.opcode, self.output),
    {
        fmt_output(self.opcode, self.output.as_ref())
    }

    /// The display form of the inputs part (see `spec_fmt_inputs`).
    pub fn display_inputs(&self) -> (r: String)
        requires
            spec_can_format(self.opcode, self.inputs@),
        ensures
            r@ == spec_fmt_inputs(self.opcode, self.inputs@, 0),
    {
        fmt_inputs(self.opcode, self.inputs.as_slice(), 0)
    }

    /// The display form of the operation: output, then inputs (see `spec_op_text`).
    pub fn display_text(&self) -> (r: String)
        requires
            spec_can_format(self.opcode, self.inputs@),
        ensures
            r@ == spec_op_text(*self),
    {
        let mut s = self.fmt_output();
        let t = self.display_inputs();
        push_str(&mut s, t.as_str());
        s
    }

    /// The display form of the operation where the printer accepts it (see
    /// `spec_can_format`); `None` where it does not.
    pub fn try_display_text(&self) -> (r: Option<String>)
        ensures
            match r {
                Some(t) => spec_can_format(self.opcode, self.inputs@) && t@ == spec_op_text(*self),
                None => !spec_can_format(self.opcode, self.inputs@),
            },
    {
        if can_format(self.opcode, self.inputs.as_slice()) {
            Some(self.display_text())
        } else {
            None
        }
    }
}

/// The name under which the plain printer writes an operation as a function call of all its
/// inputs.
pub open spec fn spec_plain_func_name(op: OpCode) -> Option<Seq<char>> {
    if op == OpCode::FloatInt2Float {
        Some("int2float"@)
    } else {
        spec_func_name(op)
    }
}

/// The infix operator that the plain printer writes between two inputs; it has none for
/// the signed comparisons other than `s<`.
pub open spec fn spec_plain_binary_name(op: OpCode) -> Option<Seq<char>> {
    match op {
        OpCode::IntSLessEqual | OpCode::IntSGreater | OpCode::IntSGreaterEqual => None,
        _ => spec_binary_name(op),
    }
}

fn plain_func_name(op: OpCode) -> (r: Option<&'static str>)
    ensures
        match r {
            Some(t) => spec_plain_func_name(op) == Some(t@),
            None => spec_plain_func_name(op) is None,
        },
{
    if op == OpCode::FloatInt2Float {
        Some("int2float")
    } else {
        func_name(op)
    }
}

fn plain_binary_name(op: OpCode) -> (r: Option<&'static str>)
    ensures
        match r {
            Some(t) => spec_plain_binary_name(op) == Some(t@),
            None => spec_plain_binary_name(op) is None,
        },
{
    match op {
        OpCode::IntSLessEqual | OpCode::IntSGreater | OpCode::IntSGreaterEqual => None,
        _ => binary_name(op),
    }
}

/// The operations that the plain printer writes in a form of their own.
pub open spec fn spec_plain_special(op: OpCode) -> bool {
    match op {
        OpCode::Copy | OpCode::Store | OpCode::Load | OpCode::Branch | OpCode::BranchInd
        | OpCode::Call | OpCode::CallInd | OpCode::CBranch | OpCode::Return | OpCode::SubPiece => true,
        _ => false,
    }
}

/// The number of inputs the plain printer reads of an operation.
pub open spec fn spec_plain_min_inputs(op: OpCode) -> nat {
    if spec_plain_binary_name(op) is Some {
        2
    } else if spec_unary_name(op) is Some {
        1
    } else {
        match op {
            OpCode::Store => 3,
            OpCode::Load | OpCode::CBranch | OpCode::SubPiece => 2,
            OpCode::Copy | OpCode::Branch | OpCode::BranchInd | OpCode::Call | OpCode::CallInd => 1,
            _ => 0,
        }
    }
}

/// Whether the plain printer knows the operation and has the inputs it reads.
pub open spec fn spec_plain_can_format(op: OpCode, xs: Seq<Varnode>) -> bool {
    &&& (spec_plain_func_name(op) is Some || spec_plain_binary_name(op) is Some
        || spec_unary_name(op) is Some || spec_plain_special(op))
    &&& xs.len() >= spec_plain_min_inputs(op)
}

/// The plain printed form of an operation's inputs: calls to a target named `FUN_` and its
/// hexadecimal offset, binary operands written bare, no colours.
pub open spec fn spec_plain_inputs(op: OpCode, xs: Seq<Varnode>) -> Seq<char> {
    let ts = spec_texts(xs);
    match spec_plain_func_name(op) {
        Some(n) => spec_fmt_func(n, ts),
        None => match spec_plain_binary_name(op) {
            Some(n) => ts[0] + " "@ + n + " "@ + ts[1],
            None => match spec_unary_name(op) {
                Some(n) => spec_fmt_unary(n, ts),
                None => match op {
                    OpCode::Copy => ts[0],
                    OpCode::Store => "*"@ + ts[1] + " = "@ + ts[2],
                    OpCode::Load => "*"@ + ts[1],
                    OpCode::Branch => "goto "@ + ts[0],
                    OpCode::BranchInd => "goto ["@ + ts[0] + "]"@,
                    OpCode::Call => "FUN_"@ + spec_hex(xs[0].offset as nat) + "("@ + spec_join(ts.drop_first(), ", "@) + ")"@,
                    OpCode::CallInd => "*("@ + ts[0] + ")("@ + spec_join(ts.drop_first(), ", "@) + ")"@,
                    OpCode::CBranch => "if ("@ + ts[1] + ") goto "@ + ts[0],
                    OpCode::Return => "return "@ + spec_join(ts, ", "@),
                    OpCode::SubPiece => "("@ + ts[0] + ")("@ + ts[1] + ")"@,
                    _ => seq![],
                },
            },
        },
    }
}

/// The plain printed form of an operation: `out = ` where it has an output, then its inputs.
pub open spec fn spec_plain_text(op: Op<Varnode>) -> Seq<char> {
    spec_fmt_output(op.opcode, op.output) + spec_plain_inputs(op.opcode, op.inputs@)
}

fn plain_special(op: OpCode) -> (r: bool)
    ensures
        r == spec_plain_special(op),
{
    match op {
        OpCode::Copy | OpCode::Store | OpCode::Load | OpCode::Branch | OpCode::BranchInd
        | OpCode::Call | OpCode::CallInd | OpCode::CBranch | OpCode::Return | OpCode::SubPiece => true,
        _ => false,
    }
}

fn plain_min_inputs(op: OpCode) -> (r: usize)
    ensures
        r == spec_plain_min_inputs(op),
{
    if plain_binary_name(op).is_some() {
        2
    } else if unary_name(op).is_some() {
        1
    } else {
        match op {
            OpCode::Store => 3,
            OpCode::Load | OpCode::CBranch | OpCode::SubPiece => 2,
            OpCode::Copy | OpCode::Branch | OpCode::BranchInd | OpCode::Call | OpCode::CallInd => 1,
            _ => 0,
        }
    }
}

fn plain_special_inputs(opcode: OpCode, inputs: &[Varnode]) -> (r: String)
    requires
        spec_plain_func_name(opcode) is None,
        spec_plain_binary_name(opcode) is None,
        spec_unary_name(opcode) is None,
        spec_plain_special(opcode),
        inputs@.len() >= spec_plain_min_inputs(opcode),
    ensures
        r@ == spec_plain_inputs(opcode, inputs@),
{
    let ghost ts = spec_texts(inputs@);
    match opcode {
        OpCode::Copy => inputs[0].to_string(),
        OpCode::Store => {
            let a = inputs[1].to_string();
            let b = inputs[2].to_string();
            let mut s = cat3("*", a.as_str(), " = ");
            push_str(&mut s, b.as_str());
            s
        },
        OpCode::Load => {
            let a = inputs[1].to_string();
            cat2("*", a.as_str())
        },
        OpCode::Branch => {
            let a = inputs[0].to_string();
            cat2("goto ", a.as_str())
        },
        OpCode::BranchInd => {
            let a = inputs[0].to_string();
            cat3("goto [", a.as_str(), "]")
        },
        OpCode::Call => {
            let mut s = String::new();
            push_str(&mut s, "FUN_");
            push_hex(&mut s, inputs[0].offset);
            push_str(&mut s, "(");
            push_joined(&mut s, inputs, 1);
            push_str(&mut s, ")");
            assert(ts.subrange(1, inputs@.len() as int) =~= ts.drop_first());
            assert(s@ =~= spec_plain_inputs(opcode, inputs@));
            s
        },
        OpCode::CallInd => {
            let t = inputs[0].to_string();
            let mut s = cat3("*(", t.as_str(), ")(");
            push_joined(&mut s, inputs, 1);
            push_str(&mut s, ")");
            assert(ts.subrange(1, inputs@.len() as int) =~= ts.drop_first());
            s
        },
        OpCode::CBranch => {
            let t1 = inputs[1].to_string();
            let t0 = inputs[0].to_string();
            let mut s = cat3("if (", t1.as_str(), ") goto ");
            push_str(&mut s, t0.as_str());
            s
        },
        OpCode::Return => {
            let mut s = String::new();
            push_str(&mut s, "return ");
            push_joined(&mut s, inputs, 0);
            assert(ts.subrange(0, inputs@.len() as int) =~= ts);
            assert(s@ =~= spec_plain_inputs(opcode, inputs@));
            s
        },
        _ => {
            let t0 = inputs[0].to_string();
            let t1 = inputs[1].to_string();
            let mut s = cat3("(", t0.as_str(), ")(");
            push_str(&mut s, t1.as_str());
            push_str(&mut s, ")");
            s
        },
    }
}

impl Op<Varnode> {
    /// The plain printed form of the inputs part (see `spec_plain_inputs`); the printer
    /// does not know the other operations.
    pub fn fmt_inputs(&self) -> (r: String)
        requires
            spec_plain_can_format(self.opcode, self.inputs@),
        ensures
            r@ == spec_plain_inputs(self.opcode, self.inputs@),
    {
        let opcode = self.opcode;
        let inputs = self.inputs.as_slice();
        if let Some(n) = plain_func_name(opcode) {
            return fmt_func(n, inputs);
        }
        if let Some(n) = plain_binary_name(opcode) {
            let a = inputs[0].to_string();
            let b = inputs[1].to_string();
            let mut s = cat3(a.as_str(), " ", n);
            push_str(&mut s, " ");
            push_str(&mut s, b.as_str());
            assert(s@ =~= spec_plain_inputs(opcode, inputs@));
            return s;
        }
        if let Some(n) = unary_name(opcode) {
            return fmt_unary(n, inputs);
        }
        plain_special_inputs(opcode, inputs)
    }

    /// The plain printed form of the operation: output, then inputs (see `spec_plain_text`).
    pub fn to_string(&self) -> (r: String)
        requires
            spec_plain_can_format(self.opcode, self.inputs@),
        ensures
            r@ == spec_plain_text(*self),
    {
        let mut s = self.fmt_output();
        let t = self.fmt_inputs();
        push_str(&mut s, t.as_str());
        s
    }

    /// The plain printed form of the operation where the printer knows it and its inputs
    /// are there (see `spec_plain_can_format`); `None` where not.
    pub fn try_to_string(&self) -> (r: Option<String>)
        ensures
            match r {
                Some(t) => spec_plain_can_format(self.opcode, self.inputs@) && t@ == spec_plain_text(*self),
                None => !spec_plain_can_format(self.opcode, self.inputs@),
            },
    {
        let op = self.opcode;
        if (plain_func_name(op).is_some() || plain_binary_name(op).is_some() || unary_name(op).is_some()
            || plain_special(op)) && self.inputs.len() >= plain_min_inputs(op) {
            Some(self.to_string())
        } else {
            None
        }
    }

    /// Whether the operation returns.
    pub fn is_return(&self) -> (r: bool)
        ensures
            r == (self.opcode == OpCode::Return),
    {
        self.opcode == OpCode::Return
    }

    /// Whether the operation is a direct, conditional or indirect branch.
    pub fn branches(&self) -> (r: bool)
        ensures
            r == (self.opcode == OpCode::Branch || self.opcode == OpCode::CBranch || self.opcode
                == OpCode::BranchInd),
    {
        match self.opcode {
            OpCode::Branch | OpCode::CBranch | OpCode::BranchInd => true,
            _ => false,
        }
    }

    /// Whether the operation ends a block: it branches or returns.
    pub fn terminates(&self) -> (r: bool)
        ensures
            r == (self.opcode == OpCode::Return || self.opcode == OpCode::Branch || self.opcode
                == OpCode::CBranch || self.opcode == OpCode::BranchInd),
    {
        self.branches() || self.is_return()
    }

    /// Whether the operation is a conditional branch.
    pub fn is_conditional(&self) -> (r: bool)
        ensures
            r == (self.opcode == OpCode::CBranch),
    {
        self.opcode == OpCode::CBranch
    }

    /// The address a direct branch goes to, when its destination is in ram.
    pub fn target(&self) -> (r: Option<Address>)
        ensures
            r == (if (self.opcode == OpCode::Branch || self.opcode == OpCode::CBranch)
                && self.inputs@.len() > 0 && self.inputs@[0].space == AddressSpace::Ram {
                Some(Address { space: self.inputs@[0].space, offset: self.inputs@[0].offset })
            } else {
                None
            }),
    {
        if self.branches() && self.inputs.len() > 0 && self.inputs[0].space.is_ram()
            && self.opcode != OpCode::BranchInd {
            Some(Address { space: self.inputs[0].space, offset: self.inputs[0].offset })
        } else {
            None
        }
    }

    /// Whether control can go on to the next operation.
    pub fn has_fallthrough(&self) -> (r: bool)
        ensures
            r == !(self.opcode == OpCode::Return || self.opcode == OpCode::Branch || self.opcode
                == OpCode::BranchInd),
    {
        !(self.is_return() || (self.branches() && !self.is_conditional()))
    }
}

/// A varnode's text never starts with `*`, so every varnode can stand where an operand is
/// parenthesized.
pub proof fn lemma_varnode_text_unstarred(v: Varnode)
    ensures
        spec_trim_stars(spec_varnode_text(v)) == spec_varnode_text(v),
        spec_varnode_text(v).len() > 0,
{
    reveal_strlit("\x1b[1;35m");
    reveal_strlit("\x1b[1;33m");
    reveal_strlit("U");
    reveal_strlit("\x1b[1;32m0x");
    reveal_strlit("R");
    reveal_strlit("[ram]0x");
    reveal_strlit("[stack]0x");
    reveal_strlit("[deref]0x");
    reveal_strlit("DUMMY");
    let t = spec_varnode_text(v);
    assert(t.len() > 0 && t[0] != '*');
}

} // verus!
