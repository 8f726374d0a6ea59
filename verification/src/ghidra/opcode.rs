//! The p-code operation codes of the decompiler library, with their names and symbols.
use vstd::prelude::*;
use crate::text::push_str;

verus! {

/// The operation that a p-code op performs, as the decompiler library numbers them.
#[allow(non_camel_case_types)]
#[derive(PartialEq, Eq, Structural, Hash, Copy, Clone, Debug)]
pub enum OpCode {
    COPY,
    LOAD,
    STORE,
    BRANCH,
    CBRANCH,
    BRANCHIND,
    CALL,
    CALLIND,
    CALLOTHER,
    RETURN,
    INT_EQUAL,
    INT_NOTEQUAL,
    INT_SLESS,
    INT_SLESSEQUAL,
    INT_LESS,
    INT_LESSEQUAL,
    INT_ZEXT,
    INT_SEXT,
    INT_ADD,
    INT_SUB,
    INT_CARRY,
    INT_SCARRY,
    INT_SBORROW,
    INT_2COMP,
    INT_NEGATE,
    INT_XOR,
    INT_AND,
    INT_OR,
    INT_LEFT,
    INT_RIGHT,
    INT_SRIGHT,
    INT_MULT,
    INT_DIV,
    INT_SDIV,
    INT_REM,
    INT_SREM,
    BOOL_NEGATE,
    BOOL_XOR,
    BOOL_AND,
    BOOL_OR,
    FLOAT_EQUAL,
    FLOAT_NOTEQUAL,
    FLOAT_LESS,
    FLOAT_LESSEQUAL,
    INVALID,
    FLOAT_NAN,
    FLOAT_ADD,
    FLOAT_DIV,
    FLOAT_MULT,
    FLOAT_SUB,
    FLOAT_NEG,
    FLOAT_ABS,
    FLOAT_SQRT,
    FLOAT_INT2FLOAT,
    FLOAT_FLOAT2FLOAT,
    FLOAT_TRUNC,
    FLOAT_CEIL,
    FLOAT_FLOOR,
    FLOAT_ROUND,
    MULTIEQUAL,
    INDIRECT,
    PIECE,
    SUBPIECE,
    CAST,
    PTRADD,
    PTRSUB,
    SEGMENTOP,
    CPOOLREF,
    NEW,
    INSERT,
    EXTRACT,
    POPCOUNT,
}

/// The operations of one input.
pub open spec fn spec_is_unary(op: OpCode) -> bool {
    matches!(op, OpCode::COPY | OpCode::BOOL_NEGATE | OpCode::FLOAT_ABS | OpCode::FLOAT_NEG | OpCode::INT_2COMP | OpCode::INT_NEGATE | OpCode::INT_SEXT | OpCode::INT_ZEXT | OpCode::POPCOUNT)
}

/// The operations of two inputs.
pub open spec fn spec_is_binary(op: OpCode) -> bool {
    matches!(op, OpCode::BOOL_OR | OpCode::BOOL_AND | OpCode::BOOL_XOR | OpCode::INT_ADD | OpCode::INT_AND | OpCode::INT_CARRY | OpCode::INT_SCARRY | OpCode::INT_DIV | OpCode::INT_EQUAL | OpCode::INT_NOTEQUAL | OpCode::INT_LEFT | OpCode::INT_LESS | OpCode::INT_LESSEQUAL | OpCode::INT_MULT | OpCode::INT_REM | OpCode::INT_RIGHT | OpCode::INT_SBORROW | OpCode::INT_SDIV | OpCode::INT_SLESS | OpCode::INT_SLESSEQUAL | OpCode::INT_SREM | OpCode::INT_SRIGHT | OpCode::INT_SUB | OpCode::INT_XOR | OpCode::INT_OR | OpCode::PIECE | OpCode::SUBPIECE | OpCode::FLOAT_ADD | OpCode::FLOAT_DIV | OpCode::FLOAT_EQUAL | OpCode::FLOAT_LESS | OpCode::FLOAT_LESSEQUAL | OpCode::FLOAT_MULT)
}

/// The name of an operation; `None` for the invalid operation.
pub open spec fn spec_to_str(op: OpCode) -> Option<Seq<char>> {
    match op {
        OpCode::COPY => Some("COPY"@),
        OpCode::LOAD => Some("LOAD"@),
        OpCode::STORE => Some("STORE"@),
        OpCode::BRANCH => Some("BRANCH"@),
        OpCode::CBRANCH => Some("CBRANCH"@),
        OpCode::BRANCHIND => Some("BRANCHIND"@),
        OpCode::CALL => Some("CALL"@),
        OpCode::CALLIND => Some("CALLIND"@),
        OpCode::CALLOTHER => Some("CALLOTHER"@),
        OpCode::RETURN => Some("RETURN"@),
        OpCode::INT_EQUAL => Some("INT_EQUAL"@),
        OpCode::INT_NOTEQUAL => Some("INT_NOTEQUAL"@),
        OpCode::INT_SLESS => Some("INT_SLESS"@),
        OpCode::INT_SLESSEQUAL => Some("INT_SLESSEQUAL"@),
        OpCode::INT_LESS => Some("INT_LESS"@),
        OpCode::INT_LESSEQUAL => Some("INT_LESSEQUAL"@),
        OpCode::INT_ZEXT => Some("INT_ZEXT"@),
        OpCode::INT_SEXT => Some("INT_SEXT"@),
        OpCode::INT_ADD => Some("INT_ADD"@),
        OpCode::INT_SUB => Some("INT_SUB"@),
        OpCode::INT_CARRY => Some("INT_CARRY"@),
        OpCode::INT_SCARRY => Some("INT_SCARRY"@),
        OpCode::INT_SBORROW => Some("INT_SBORROW"@),
        OpCode::INT_2COMP => Some("INT_2COMP"@),
        OpCode::INT_NEGATE => Some("INT_NEGATE"@),
        OpCode::INT_XOR => Some("INT_XOR"@),
        OpCode::INT_AND => Some("INT_AND"@),
        OpCode::INT_OR => Some("INT_OR"@),
        OpCode::INT_LEFT => Some("INT_LEFT"@),
        OpCode::INT_RIGHT => Some("INT_RIGHT"@),
        OpCode::INT_SRIGHT => Some("INT_SRIGHT"@),
        OpCode::INT_MULT => Some("INT_MULT"@),
        OpCode::INT_DIV => Some("INT_DIV"@),
        OpCode::INT_SDIV => Some("INT_SDIV"@),
        OpCode::INT_REM => Some("INT_REM"@),
        OpCode::INT_SREM => Some("INT_SREM"@),
        OpCode::BOOL_NEGATE => Some("BOOL_NEGATE"@),
        OpCode::BOOL_XOR => Some("BOOL_XOR"@),
        OpCode::BOOL_AND => Some("BOOL_AND"@),
        OpCode::BOOL_OR => Some("BOOL_OR"@),
        OpCode::FLOAT_EQUAL => Some("FLOAT_EQUAL"@),
        OpCode::FLOAT_NOTEQUAL => Some("FLOAT_NOTEQUAL"@),
        OpCode::FLOAT_LESS => Some("FLOAT_LESS"@),
        OpCode::FLOAT_LESSEQUAL => Some("FLOAT_LESSEQUAL"@),
        OpCode::FLOAT_NAN => Some("FLOAT_NAN"@),
        OpCode::FLOAT_ADD => Some("FLOAT_ADD"@),
        OpCode::FLOAT_DIV => Some("FLOAT_DIV"@),
        OpCode::FLOAT_MULT => Some("FLOAT_MULT"@),
        OpCode::FLOAT_SUB => Some("FLOAT_SUB"@),
        OpCode::FLOAT_NEG => Some("FLOAT_NEG"@),
        OpCode::FLOAT_ABS => Some("FLOAT_ABS"@),
        OpCode::FLOAT_SQRT => Some("FLOAT_SQRT"@),
        OpCode::FLOAT_INT2FLOAT => Some("FLOAT_INT2FLOAT"@),
        OpCode::FLOAT_FLOAT2FLOAT => Some("FLOAT_FLOAT2FLOAT"@),
        OpCode::FLOAT_TRUNC => Some("FLOAT_TRUNC"@),
        OpCode::FLOAT_CEIL => Some("FLOAT_CEIL"@),
        OpCode::FLOAT_FLOOR => Some("FLOAT_FLOOR"@),
        OpCode::FLOAT_ROUND => Some("FLOAT_ROUND"@),
        OpCode::MULTIEQUAL => Some("MULTIEQUAL"@),
        OpCode::INDIRECT => Some("INDIRECT"@),
        OpCode::PIECE => Some("PIECE"@),
        OpCode::SUBPIECE => Some("SUBPIECE"@),
        OpCode::CAST => Some("CAST"@),
        OpCode::PTRADD => Some("PTRADD"@),
        OpCode::PTRSUB => Some("PTRSUB"@),
        OpCode::SEGMENTOP => Some("SEGMENTOP"@),
        OpCode::CPOOLREF => Some("CPOOLREF"@),
        OpCode::NEW => Some("NEW"@),
        OpCode::INSERT => Some("INSERT"@),
        OpCode::EXTRACT => Some("EXTRACT"@),
        OpCode::POPCOUNT => Some("POPCOUNT"@),
        _ => None,
    }
}

/// The symbol an operation is printed with; `None` for the operations that have none.
pub open spec fn spec_symbol(op: OpCode) -> Option<Seq<char>> {
    match op {
        OpCode::COPY => Some(""@),
        OpCode::LOAD => Some("load"@),
        OpCode::STORE => Some("store"@),
        OpCode::BRANCH => Some("goto"@),
        OpCode::CBRANCH => Some("ifgoto"@),
        OpCode::BRANCHIND => Some("goto"@),
        OpCode::CALL => Some("call"@),
        OpCode::CALLIND => Some("call"@),
        OpCode::CALLOTHER => Some("callother"@),
        OpCode::RETURN => Some("return"@),
        OpCode::INT_EQUAL => Some("=="@),
        OpCode::INT_NOTEQUAL => Some("!="@),
        OpCode::INT_SLESS => Some("s<"@),
        OpCode::INT_SLESSEQUAL => Some("s<="@),
        OpCode::INT_LESS => Some("<"@),
        OpCode::INT_LESSEQUAL => Some("<="@),
        OpCode::INT_ZEXT => Some("zext"@),
        OpCode::INT_SEXT => Some("sext"@),
        OpCode::INT_ADD => Some("+"@),
        OpCode::INT_SUB => Some("-"@),
        OpCode::INT_CARRY => Some("carry"@),
        OpCode::INT_SCARRY => Some("scarry"@),
        OpCode::INT_SBORROW => Some("sborrow"@),
        OpCode::INT_2COMP => Some("-"@),
        OpCode::INT_NEGATE => Some("~"@),
        OpCode::INT_XOR => Some("^"@),
        OpCode::INT_AND => Some("&"@),
        OpCode::INT_OR => Some("|"@),
        OpCode::INT_LEFT => Some("<<"@),
        OpCode::INT_RIGHT => Some(">>"@),
        OpCode::INT_SRIGHT => Some("s>>"@),
        OpCode::INT_MULT => Some("*"@),
        OpCode::INT_DIV => Some("/"@),
        OpCode::INT_SDIV => Some("s/"@),
        OpCode::INT_REM => Some("%"@),
        OpCode::INT_SREM => Some("s%"@),
        OpCode::BOOL_NEGATE => Some("!"@),
        OpCode::BOOL_XOR => Some("^^"@),
        OpCode::BOOL_AND => Some("&&"@),
        OpCode::BOOL_OR => Some("||"@),
        OpCode::FLOAT_EQUAL => Some("f=="@),
        OpCode::FLOAT_NOTEQUAL => Some("f!="@),
        OpCode::FLOAT_LESS => Some("f<"@),
        OpCode::FLOAT_LESSEQUAL => Some("f<="@),
        OpCode::FLOAT_NAN => Some("nan"@),
        OpCode::FLOAT_ADD => Some("f+"@),
        OpCode::FLOAT_DIV => Some("f/"@),
        OpCode::FLOAT_MULT => Some("f*"@),
        OpCode::FLOAT_SUB => Some("f-"@),
        OpCode::FLOAT_NEG => Some("f-"@),
        OpCode::FLOAT_ABS => Some("abs"@),
        OpCode::FLOAT_SQRT => Some("sqrt"@),
        OpCode::FLOAT_INT2FLOAT => Some("int2float"@),
        OpCode::FLOAT_FLOAT2FLOAT => Some("float2float"@),
        OpCode::FLOAT_TRUNC => Some("trunc"@),
        OpCode::FLOAT_CEIL => Some("ceil"@),
        OpCode::FLOAT_FLOOR => Some("floor"@),
        OpCode::FLOAT_ROUND => Some("round"@),
        OpCode::MULTIEQUAL => Some("phi"@),
        OpCode::INDIRECT => Some("indirect"@),
        OpCode::PIECE => Some("piece"@),
        OpCode::SUBPIECE => Some("subpiece"@),
        OpCode::INSERT => Some("insert"@),
        OpCode::EXTRACT => Some("extract"@),
        OpCode::POPCOUNT => Some("popcount"@),
        _ => None,
    }
}

impl OpCode {
    /// Whether the operation takes one input.
    pub fn is_unary(&self) -> (r: bool)
        ensures
            r == spec_is_unary(*self),
    {
        matches!(self, OpCode::COPY | OpCode::BOOL_NEGATE | OpCode::FLOAT_ABS | OpCode::FLOAT_NEG | OpCode::INT_2COMP | OpCode::INT_NEGATE | OpCode::INT_SEXT | OpCode::INT_ZEXT | OpCode::POPCOUNT)
    }

    /// Whether the operation takes two inputs.
    pub fn is_binary(&self) -> (r: bool)
        ensures
            r == spec_is_binary(*self),
    {
        matches!(self, OpCode::BOOL_OR | OpCode::BOOL_AND | OpCode::BOOL_XOR | OpCode::INT_ADD | OpCode::INT_AND | OpCode::INT_CARRY | OpCode::INT_SCARRY | OpCode::INT_DIV | OpCode::INT_EQUAL | OpCode::INT_NOTEQUAL | OpCode::INT_LEFT | OpCode::INT_LESS | OpCode::INT_LESSEQUAL | OpCode::INT_MULT | OpCode::INT_REM | OpCode::INT_RIGHT | OpCode::INT_SBORROW | OpCode::INT_SDIV | OpCode::INT_SLESS | OpCode::INT_SLESSEQUAL | OpCode::INT_SREM | OpCode::INT_SRIGHT | OpCode::INT_SUB | OpCode::INT_XOR | OpCode::INT_OR | OpCode::PIECE | OpCode::SUBPIECE | OpCode::FLOAT_ADD | OpCode::FLOAT_DIV | OpCode::FLOAT_EQUAL | OpCode::FLOAT_LESS | OpCode::FLOAT_LESSEQUAL | OpCode::FLOAT_MULT)
    }

    /// The name of the operation.
    pub fn to_str(&self) -> (r: String)
        requires
            spec_to_str(*self) is Some,
        ensures
            r@ == spec_to_str(*self)->0,
    {
        let opstr = match self {
            OpCode::COPY => "COPY",
            OpCode::LOAD => "LOAD",
            OpCode::STORE => "STORE",
            OpCode::BRANCH => "BRANCH",
            OpCode::CBRANCH => "CBRANCH",
            OpCode::BRANCHIND => "BRANCHIND",
            OpCode::CALL => "CALL",
            OpCode::CALLIND => "CALLIND",
            OpCode::CALLOTHER => "CALLOTHER",
            OpCode::RETURN => "RETURN",
            OpCode::INT_EQUAL => "INT_EQUAL",
            OpCode::INT_NOTEQUAL => "INT_NOTEQUAL",
            OpCode::INT_SLESS => "INT_SLESS",
            OpCode::INT_SLESSEQUAL => "INT_SLESSEQUAL",
            OpCode::INT_LESS => "INT_LESS",
            OpCode::INT_LESSEQUAL => "INT_LESSEQUAL",
            OpCode::INT_ZEXT => "INT_ZEXT",
            OpCode::INT_SEXT => "INT_SEXT",
            OpCode::INT_ADD => "INT_ADD",
            OpCode::INT_SUB => "INT_SUB",
            OpCode::INT_CARRY => "INT_CARRY",
            OpCode::INT_SCARRY => "INT_SCARRY",
            OpCode::INT_SBORROW => "INT_SBORROW",
            OpCode::INT_2COMP => "INT_2COMP",
            OpCode::INT_NEGATE => "INT_NEGATE",
            OpCode::INT_XOR => "INT_XOR",
            OpCode::INT_AND => "INT_AND",
            OpCode::INT_OR => "INT_OR",
            OpCode::INT_LEFT => "INT_LEFT",
            OpCode::INT_RIGHT => "INT_RIGHT",
            OpCode::INT_SRIGHT => "INT_SRIGHT",
            OpCode::INT_MULT => "INT_MULT",
            OpCode::INT_DIV => "INT_DIV",
            OpCode::INT_SDIV => "INT_SDIV",
            OpCode::INT_REM => "INT_REM",
            OpCode::INT_SREM => "INT_SREM",
            OpCode::BOOL_NEGATE => "BOOL_NEGATE",
            OpCode::BOOL_XOR => "BOOL_XOR",
            OpCode::BOOL_AND => "BOOL_AND",
            OpCode::BOOL_OR => "BOOL_OR",
            OpCode::FLOAT_EQUAL => "FLOAT_EQUAL",
            OpCode::FLOAT_NOTEQUAL => "FLOAT_NOTEQUAL",
            OpCode::FLOAT_LESS => "FLOAT_LESS",
            OpCode::FLOAT_LESSEQUAL => "FLOAT_LESSEQUAL",
            OpCode::FLOAT_NAN => "FLOAT_NAN",
            OpCode::FLOAT_ADD => "FLOAT_ADD",
            OpCode::FLOAT_DIV => "FLOAT_DIV",
            OpCode::FLOAT_MULT => "FLOAT_MULT",
            OpCode::FLOAT_SUB => "FLOAT_SUB",
            OpCode::FLOAT_NEG => "FLOAT_NEG",
            OpCode::FLOAT_ABS => "FLOAT_ABS",
            OpCode::FLOAT_SQRT => "FLOAT_SQRT",
            OpCode::FLOAT_INT2FLOAT => "FLOAT_INT2FLOAT",
            OpCode::FLOAT_FLOAT2FLOAT => "FLOAT_FLOAT2FLOAT",
            OpCode::FLOAT_TRUNC => "FLOAT_TRUNC",
            OpCode::FLOAT_CEIL => "FLOAT_CEIL",
            OpCode::FLOAT_FLOOR => "FLOAT_FLOOR",
            OpCode::FLOAT_ROUND => "FLOAT_ROUND",
            OpCode::MULTIEQUAL => "MULTIEQUAL",
            OpCode::INDIRECT => "INDIRECT",
            OpCode::PIECE => "PIECE",
            OpCode::SUBPIECE => "SUBPIECE",
            OpCode::CAST => "CAST",
            OpCode::PTRADD => "PTRADD",
            OpCode::PTRSUB => "PTRSUB",
            OpCode::SEGMENTOP => "SEGMENTOP",
            OpCode::CPOOLREF => "CPOOLREF",
            OpCode::NEW => "NEW",
            OpCode::INSERT => "INSERT",
            OpCode::EXTRACT => "EXTRACT",
            OpCode::POPCOUNT => "POPCOUNT",
            _ => "",
        };
        let mut s = String::new();
        push_str(&mut s, opstr);
        assert(Seq::<char>::empty() + opstr@ =~= opstr@);
        s
    }

    /// The symbol the operation is printed with.
    pub fn to_string(&self) -> (r: String)
        requires
            spec_symbol(*self) is Some,
        ensures
            r@ == spec_symbol(*self)->0,
    {
        let sym = match self {
            OpCode::COPY => "",
            OpCode::LOAD => "load",
            OpCode::STORE => "store",
            OpCode::BRANCH => "goto",
            OpCode::CBRANCH => "ifgoto",
            OpCode::BRANCHIND => "goto",
            OpCode::CALL => "call",
            OpCode::CALLIND => "call",
            OpCode::CALLOTHER => "callother",
            OpCode::RETURN => "return",
            OpCode::INT_EQUAL => "==",
            OpCode::INT_NOTEQUAL => "!=",
            OpCode::INT_SLESS => "s<",
            OpCode::INT_SLESSEQUAL => "s<=",
            OpCode::INT_LESS => "<",
            OpCode::INT_LESSEQUAL => "<=",
            OpCode::INT_ZEXT => "zext",
            OpCode::INT_SEXT => "sext",
            OpCode::INT_ADD => "+",
            OpCode::INT_SUB => "-",
            OpCode::INT_CARRY => "carry",
            OpCode::INT_SCARRY => "scarry",
            OpCode::INT_SBORROW => "sborrow",
            OpCode::INT_2COMP => "-",
            OpCode::INT_NEGATE => "~",
            OpCode::INT_XOR => "^",
            OpCode::INT_AND => "&",
            OpCode::INT_OR => "|",
            OpCode::INT_LEFT => "<<",
            OpCode::INT_RIGHT => ">>",
            OpCode::INT_SRIGHT => "s>>",
            OpCode::INT_MULT => "*",
            OpCode::INT_DIV => "/",
            OpCode::INT_SDIV => "s/",
            OpCode::INT_REM => "%",
            OpCode::INT_SREM => "s%",
            OpCode::BOOL_NEGATE => "!",
            OpCode::BOOL_XOR => "^^",
            OpCode::BOOL_AND => "&&",
            OpCode::BOOL_OR => "||",
            OpCode::FLOAT_EQUAL => "f==",
            OpCode::FLOAT_NOTEQUAL => "f!=",
            OpCode::FLOAT_LESS => "f<",
            OpCode::FLOAT_LESSEQUAL => "f<=",
            OpCode::FLOAT_NAN => "nan",
            OpCode::FLOAT_ADD => "f+",
            OpCode::FLOAT_DIV => "f/",
            OpCode::FLOAT_MULT => "f*",
            OpCode::FLOAT_SUB => "f-",
            OpCode::FLOAT_NEG => "f-",
            OpCode::FLOAT_ABS => "abs",
            OpCode::FLOAT_SQRT => "sqrt",
            OpCode::FLOAT_INT2FLOAT => "int2float",
            OpCode::FLOAT_FLOAT2FLOAT => "float2float",
            OpCode::FLOAT_TRUNC => "trunc",
            OpCode::FLOAT_CEIL => "ceil",
            OpCode::FLOAT_FLOOR => "floor",
            OpCode::FLOAT_ROUND => "round",
            OpCode::MULTIEQUAL => "phi",
            OpCode::INDIRECT => "indirect",
            OpCode::PIECE => "piece",
            OpCode::SUBPIECE => "subpiece",
            OpCode::INSERT => "insert",
            OpCode::EXTRACT => "extract",
            OpCode::POPCOUNT => "popcount",
            _ => "",
        };
        let mut s = String::new();
        push_str(&mut s, sym);
        assert(Seq::<char>::empty() + sym@ =~= sym@);
        s
    }
}


/// The operation whose name `s` is.
spec fn spec_opcode_of_str(s: Seq<char>) -> Option<OpCode> {
    if s == "COPY"@ {
        Some(OpCode::COPY)
    } else if s == "LOAD"@ {
        Some(OpCode::LOAD)
    } else if s == "STORE"@ {
        Some(OpCode::STORE)
    } else if s == "BRANCH"@ {
        Some(OpCode::BRANCH)
    } else if s == "CBRANCH"@ {
        Some(OpCode::CBRANCH)
    } else if s == "BRANCHIND"@ {
        Some(OpCode::BRANCHIND)
    } else if s == "CALL"@ {
        Some(OpCode::CALL)
    } else if s == "CALLIND"@ {
        Some(OpCode::CALLIND)
    } else if s == "CALLOTHER"@ {
        Some(OpCode::CALLOTHER)
    } else if s == "RETURN"@ {
        Some(OpCode::RETURN)
    } else if s == "INT_EQUAL"@ {
        Some(OpCode::INT_EQUAL)
    } else if s == "INT_NOTEQUAL"@ {
        Some(OpCode::INT_NOTEQUAL)
    } else if s == "INT_SLESS"@ {
        Some(OpCode::INT_SLESS)
    } else if s == "INT_SLESSEQUAL"@ {
        Some(OpCode::INT_SLESSEQUAL)
    } else if s == "INT_LESS"@ {
        Some(OpCode::INT_LESS)
    } else if s == "INT_LESSEQUAL"@ {
        Some(OpCode::INT_LESSEQUAL)
    } else if s == "INT_ZEXT"@ {
        Some(OpCode::INT_ZEXT)
    } else if s == "INT_SEXT"@ {
        Some(OpCode::INT_SEXT)
    } else if s == "INT_ADD"@ {
        Some(OpCode::INT_ADD)
    } else if s == "INT_SUB"@ {
        Some(OpCode::INT_SUB)
    } else if s == "INT_CARRY"@ {
        Some(OpCode::INT_CARRY)
    } else if s == "INT_SCARRY"@ {
        Some(OpCode::INT_SCARRY)
    } else if s == "INT_SBORROW"@ {
        Some(OpCode::INT_SBORROW)
    } else if s == "INT_2COMP"@ {
        Some(OpCode::INT_2COMP)
    } else if s == "INT_NEGATE"@ {
        Some(OpCode::INT_NEGATE)
    } else if s == "INT_XOR"@ {
        Some(OpCode::INT_XOR)
    } else if s == "INT_AND"@ {
        Some(OpCode::INT_AND)
    } else if s == "INT_OR"@ {
        Some(OpCode::INT_OR)
    } else if s == "INT_LEFT"@ {
        Some(OpCode::INT_LEFT)
    } else if s == "INT_RIGHT"@ {
        Some(OpCode::INT_RIGHT)
    } else if s == "INT_SRIGHT"@ {
        Some(OpCode::INT_SRIGHT)
    } else if s == "INT_MULT"@ {
        Some(OpCode::INT_MULT)
    } else if s == "INT_DIV"@ {
        Some(OpCode::INT_DIV)
    } else if s == "INT_SDIV"@ {
        Some(OpCode::INT_SDIV)
    } else if s == "INT_REM"@ {
        Some(OpCode::INT_REM)
    } else if s == "INT_SREM"@ {
        Some(OpCode::INT_SREM)
    } else if s == "BOOL_NEGATE"@ {
        Some(OpCode::BOOL_NEGATE)
    } else if s == "BOOL_XOR"@ {
        Some(OpCode::BOOL_XOR)
    } else if s == "BOOL_AND"@ {
        Some(OpCode::BOOL_AND)
    } else if s == "BOOL_OR"@ {
        Some(OpCode::BOOL_OR)
    } else if s == "FLOAT_EQUAL"@ {
        Some(OpCode::FLOAT_EQUAL)
    } else if s == "FLOAT_NOTEQUAL"@ {
        Some(OpCode::FLOAT_NOTEQUAL)
    } else if s == "FLOAT_LESS"@ {
        Some(OpCode::FLOAT_LESS)
    } else if s == "FLOAT_LESSEQUAL"@ {
        Some(OpCode::FLOAT_LESSEQUAL)
    } else if s == "FLOAT_NAN"@ {
        Some(OpCode::FLOAT_NAN)
    } else if s == "FLOAT_ADD"@ {
        Some(OpCode::FLOAT_ADD)
    } else if s == "FLOAT_DIV"@ {
        Some(OpCode::FLOAT_DIV)
    } else if s == "FLOAT_MULT"@ {
        Some(OpCode::FLOAT_MULT)
    } else if s == "FLOAT_SUB"@ {
        Some(OpCode::FLOAT_SUB)
    } else if s == "FLOAT_NEG"@ {
        Some(OpCode::FLOAT_NEG)
    } else if s == "FLOAT_ABS"@ {
        Some(OpCode::FLOAT_ABS)
    } else if s == "FLOAT_SQRT"@ {
        Some(OpCode::FLOAT_SQRT)
    } else if s == "FLOAT_INT2FLOAT"@ {
        Some(OpCode::FLOAT_INT2FLOAT)
    } else if s == "FLOAT_FLOAT2FLOAT"@ {
        Some(OpCode::FLOAT_FLOAT2FLOAT)
    } else if s == "FLOAT_TRUNC"@ {
        Some(OpCode::FLOAT_TRUNC)
    } else if s == "FLOAT_CEIL"@ {
        Some(OpCode::FLOAT_CEIL)
    } else if s == "FLOAT_FLOOR"@ {
        Some(OpCode::FLOAT_FLOOR)
    } else if s == "FLOAT_ROUND"@ {
        Some(OpCode::FLOAT_ROUND)
    } else if s == "MULTIEQUAL"@ {
        Some(OpCode::MULTIEQUAL)
    } else if s == "INDIRECT"@ {
        Some(OpCode::INDIRECT)
    } else if s == "PIECE"@ {
        Some(OpCode::PIECE)
    } else if s == "SUBPIECE"@ {
        Some(OpCode::SUBPIECE)
    } else if s == "CAST"@ {
        Some(OpCode::CAST)
    } else if s == "PTRADD"@ {
        Some(OpCode::PTRADD)
    } else if s == "PTRSUB"@ {
        Some(OpCode::PTRSUB)
    } else if s == "SEGMENTOP"@ {
        Some(OpCode::SEGMENTOP)
    } else if s == "CPOOLREF"@ {
        Some(OpCode::CPOOLREF)
    } else if s == "NEW"@ {
        Some(OpCode::NEW)
    } else if s == "INSERT"@ {
        Some(OpCode::INSERT)
    } else if s == "EXTRACT"@ {
        Some(OpCode::EXTRACT)
    } else if s == "POPCOUNT"@ {
        Some(OpCode::POPCOUNT)
    } else {
        None
    }
}

proof fn lemma_to_str_decodes(op: OpCode)
    requires
        spec_to_str(op) is Some,
    ensures
        spec_opcode_of_str(spec_to_str(op).unwrap()) == Some(op),
{
    reveal_strlit("COPY");
    assert("COPY"@.len() == 4 && "COPY"@[0] == 'C' && "COPY"@[1] == 'O' && "COPY"@[2] == 'P' && "COPY"@[3] == 'Y');
    reveal_strlit("LOAD");
    assert("LOAD"@.len() == 4 && "LOAD"@[0] == 'L' && "LOAD"@[1] == 'O' && "LOAD"@[2] == 'A' && "LOAD"@[3] == 'D');
    reveal_strlit("STORE");
    assert("STORE"@.len() == 5 && "STORE"@[0] == 'S' && "STORE"@[1] == 'T' && "STORE"@[2] == 'O' && "STORE"@[3] == 'R' && "STORE"@[4] == 'E');
    reveal_strlit("BRANCH");
    assert("BRANCH"@.len() == 6 && "BRANCH"@[0] == 'B' && "BRANCH"@[1] == 'R' && "BRANCH"@[2] == 'A' && "BRANCH"@[3] == 'N' && "BRANCH"@[4] == 'C' && "BRANCH"@[5] == 'H');
    reveal_strlit("CBRANCH");
    assert("CBRANCH"@.len() == 7 && "CBRANCH"@[0] == 'C' && "CBRANCH"@[1] == 'B' && "CBRANCH"@[2] == 'R' && "CBRANCH"@[3] == 'A' && "CBRANCH"@[4] == 'N' && "CBRANCH"@[5] == 'C' && "CBRANCH"@[6] == 'H');
    reveal_strlit("BRANCHIND");
    assert("BRANCHIND"@.len() == 9 && "BRANCHIND"@[0] == 'B' && "BRANCHIND"@[1] == 'R' && "BRANCHIND"@[2] == 'A' && "BRANCHIND"@[3] == 'N' && "BRANCHIND"@[4] == 'C' && "BRANCHIND"@[5] == 'H' && "BRANCHIND"@[6] == 'I' && "BRANCHIND"@[7] == 'N' && "BRANCHIND"@[8] == 'D');
    reveal_strlit("CALL");
    assert("CALL"@.len() == 4 && "CALL"@[0] == 'C' && "CALL"@[1] == 'A' && "CALL"@[2] == 'L' && "CALL"@[3] == 'L');
    reveal_strlit("CALLIND");
    assert("CALLIND"@.len() == 7 && "CALLIND"@[0] == 'C' && "CALLIND"@[1] == 'A' && "CALLIND"@[2] == 'L' && "CALLIND"@[3] == 'L' && "CALLIND"@[4] == 'I' && "CALLIND"@[5] == 'N' && "CALLIND"@[6] == 'D');
    reveal_strlit("CALLOTHER");
    assert("CALLOTHER"@.len() == 9 && "CALLOTHER"@[0] == 'C' && "CALLOTHER"@[1] == 'A' && "CALLOTHER"@[2] == 'L' && "CALLOTHER"@[3] == 'L' && "CALLOTHER"@[4] == 'O' && "CALLOTHER"@[5] == 'T' && "CALLOTHER"@[6] == 'H' && "CALLOTHER"@[7] == 'E' && "CALLOTHER"@[8] == 'R');
    reveal_strlit("RETURN");
    assert("RETURN"@.len() == 6 && "RETURN"@[0] == 'R' && "RETURN"@[1] == 'E' && "RETURN"@[2] == 'T' && "RETURN"@[3] == 'U' && "RETURN"@[4] == 'R' && "RETURN"@[5] == 'N');
    reveal_strlit("INT_EQUAL");
    assert("INT_EQUAL"@.len() == 9 && "INT_EQUAL"@[0] == 'I' && "INT_EQUAL"@[1] == 'N' && "INT_EQUAL"@[2] == 'T' && "INT_EQUAL"@[3] == '_' && "INT_EQUAL"@[4] == 'E' && "INT_EQUAL"@[5] == 'Q' && "INT_EQUAL"@[6] == 'U' && "INT_EQUAL"@[7] == 'A' && "INT_EQUAL"@[8] == 'L');
    reveal_strlit("INT_NOTEQUAL");
    assert("INT_NOTEQUAL"@.len() == 12 && "INT_NOTEQUAL"@[0] == 'I' && "INT_NOTEQUAL"@[1] == 'N' && "INT_NOTEQUAL"@[2] == 'T' && "INT_NOTEQUAL"@[3] == '_' && "INT_NOTEQUAL"@[4] == 'N' && "INT_NOTEQUAL"@[5] == 'O' && "INT_NOTEQUAL"@[6] == 'T' && "INT_NOTEQUAL"@[7] == 'E' && "INT_NOTEQUAL"@[8] == 'Q' && "INT_NOTEQUAL"@[9] == 'U' && "INT_NOTEQUAL"@[10] == 'A' && "INT_NOTEQUAL"@[11] == 'L');
    reveal_strlit("INT_SLESS");
    assert("INT_SLESS"@.len() == 9 && "INT_SLESS"@[0] == 'I' && "INT_SLESS"@[1] == 'N' && "INT_SLESS"@[2] == 'T' && "INT_SLESS"@[3] == '_' && "INT_SLESS"@[4] == 'S' && "INT_SLESS"@[5] == 'L' && "INT_SLESS"@[6] == 'E' && "INT_SLESS"@[7] == 'S' && "INT_SLESS"@[8] == 'S');
    reveal_strlit("INT_SLESSEQUAL");
    assert("INT_SLESSEQUAL"@.len() == 14 && "INT_SLESSEQUAL"@[0] == 'I' && "INT_SLESSEQUAL"@[1] == 'N' && "INT_SLESSEQUAL"@[2] == 'T' && "INT_SLESSEQUAL"@[3] == '_' && "INT_SLESSEQUAL"@[4] == 'S' && "INT_SLESSEQUAL"@[5] == 'L' && "INT_SLESSEQUAL"@[6] == 'E' && "INT_SLESSEQUAL"@[7] == 'S' && "INT_SLESSEQUAL"@[8] == 'S' && "INT_SLESSEQUAL"@[9] == 'E' && "INT_SLESSEQUAL"@[10] == 'Q' && "INT_SLESSEQUAL"@[11] == 'U' && "INT_SLESSEQUAL"@[12] == 'A' && "INT_SLESSEQUAL"@[13] == 'L');
    reveal_strlit("INT_LESS");
    assert("INT_LESS"@.len() == 8 && "INT_LESS"@[0] == 'I' && "INT_LESS"@[1] == 'N' && "INT_LESS"@[2] == 'T' && "INT_LESS"@[3] == '_' && "INT_LESS"@[4] == 'L' && "INT_LESS"@[5] == 'E' && "INT_LESS"@[6] == 'S' && "INT_LESS"@[7] == 'S');
    reveal_strlit("INT_LESSEQUAL");
    assert("INT_LESSEQUAL"@.len() == 13 && "INT_LESSEQUAL"@[0] == 'I' && "INT_LESSEQUAL"@[1] == 'N' && "INT_LESSEQUAL"@[2] == 'T' && "INT_LESSEQUAL"@[3] == '_' && "INT_LESSEQUAL"@[4] == 'L' && "INT_LESSEQUAL"@[5] == 'E' && "INT_LESSEQUAL"@[6] == 'S' && "INT_LESSEQUAL"@[7] == 'S' && "INT_LESSEQUAL"@[8] == 'E' && "INT_LESSEQUAL"@[9] == 'Q' && "INT_LESSEQUAL"@[10] == 'U' && "INT_LESSEQUAL"@[11] == 'A' && "INT_LESSEQUAL"@[12] == 'L');
    reveal_strlit("INT_ZEXT");
    assert("INT_ZEXT"@.len() == 8 && "INT_ZEXT"@[0] == 'I' && "INT_ZEXT"@[1] == 'N' && "INT_ZEXT"@[2] == 'T' && "INT_ZEXT"@[3] == '_' && "INT_ZEXT"@[4] == 'Z' && "INT_ZEXT"@[5] == 'E' && "INT_ZEXT"@[6] == 'X' && "INT_ZEXT"@[7] == 'T');
    reveal_strlit("INT_SEXT");
    assert("INT_SEXT"@.len() == 8 && "INT_SEXT"@[0] == 'I' && "INT_SEXT"@[1] == 'N' && "INT_SEXT"@[2] == 'T' && "INT_SEXT"@[3] == '_' && "INT_SEXT"@[4] == 'S' && "INT_SEXT"@[5] == 'E' && "INT_SEXT"@[6] == 'X' && "INT_SEXT"@[7] == 'T');
    reveal_strlit("INT_ADD");
    assert("INT_ADD"@.len() == 7 && "INT_ADD"@[0] == 'I' && "INT_ADD"@[1] == 'N' && "INT_ADD"@[2] == 'T' && "INT_ADD"@[3] == '_' && "INT_ADD"@[4] == 'A' && "INT_ADD"@[5] == 'D' && "INT_ADD"@[6] == 'D');
    reveal_strlit("INT_SUB");
    assert("INT_SUB"@.len() == 7 && "INT_SUB"@[0] == 'I' && "INT_SUB"@[1] == 'N' && "INT_SUB"@[2] == 'T' && "INT_SUB"@[3] == '_' && "INT_SUB"@[4] == 'S' && "INT_SUB"@[5] == 'U' && "INT_SUB"@[6] == 'B');
    reveal_strlit("INT_CARRY");
    assert("INT_CARRY"@.len() == 9 && "INT_CARRY"@[0] == 'I' && "INT_CARRY"@[1] == 'N' && "INT_CARRY"@[2] == 'T' && "INT_CARRY"@[3] == '_' && "INT_CARRY"@[4] == 'C' && "INT_CARRY"@[5] == 'A' && "INT_CARRY"@[6] == 'R' && "INT_CARRY"@[7] == 'R' && "INT_CARRY"@[8] == 'Y');
    reveal_strlit("INT_SCARRY");
    assert("INT_SCARRY"@.len() == 10 && "INT_SCARRY"@[0] == 'I' && "INT_SCARRY"@[1] == 'N' && "INT_SCARRY"@[2] == 'T' && "INT_SCARRY"@[3] == '_' && "INT_SCARRY"@[4] == 'S' && "INT_SCARRY"@[5] == 'C' && "INT_SCARRY"@[6] == 'A' && "INT_SCARRY"@[7] == 'R' && "INT_SCARRY"@[8] == 'R' && "INT_SCARRY"@[9] == 'Y');
    reveal_strlit("INT_SBORROW");
    assert("INT_SBORROW"@.len() == 11 && "INT_SBORROW"@[0] == 'I' && "INT_SBORROW"@[1] == 'N' && "INT_SBORROW"@[2] == 'T' && "INT_SBORROW"@[3] == '_' && "INT_SBORROW"@[4] == 'S' && "INT_SBORROW"@[5] == 'B' && "INT_SBORROW"@[6] == 'O' && "INT_SBORROW"@[7] == 'R' && "INT_SBORROW"@[8] == 'R' && "INT_SBORROW"@[9] == 'O' && "INT_SBORROW"@[10] == 'W');
    reveal_strlit("INT_2COMP");
    assert("INT_2COMP"@.len() == 9 && "INT_2COMP"@[0] == 'I' && "INT_2COMP"@[1] == 'N' && "INT_2COMP"@[2] == 'T' && "INT_2COMP"@[3] == '_' && "INT_2COMP"@[4] == '2' && "INT_2COMP"@[5] == 'C' && "INT_2COMP"@[6] == 'O' && "INT_2COMP"@[7] == 'M' && "INT_2COMP"@[8] == 'P');
    reveal_strlit("INT_NEGATE");
    assert("INT_NEGATE"@.len() == 10 && "INT_NEGATE"@[0] == 'I' && "INT_NEGATE"@[1] == 'N' && "INT_NEGATE"@[2] == 'T' && "INT_NEGATE"@[3] == '_' && "INT_NEGATE"@[4] == 'N' && "INT_NEGATE"@[5] == 'E' && "INT_NEGATE"@[6] == 'G' && "INT_NEGATE"@[7] == 'A' && "INT_NEGATE"@[8] == 'T' && "INT_NEGATE"@[9] == 'E');
    reveal_strlit("INT_XOR");
    assert("INT_XOR"@.len() == 7 && "INT_XOR"@[0] == 'I' && "INT_XOR"@[1] == 'N' && "INT_XOR"@[2] == 'T' && "INT_XOR"@[3] == '_' && "INT_XOR"@[4] == 'X' && "INT_XOR"@[5] == 'O' && "INT_XOR"@[6] == 'R');
    reveal_strlit("INT_AND");
    assert("INT_AND"@.len() == 7 && "INT_AND"@[0] == 'I' && "INT_AND"@[1] == 'N' && "INT_AND"@[2] == 'T' && "INT_AND"@[3] == '_' && "INT_AND"@[4] == 'A' && "INT_AND"@[5] == 'N' && "INT_AND"@[6] == 'D');
    reveal_strlit("INT_OR");
    assert("INT_OR"@.len() == 6 && "INT_OR"@[0] == 'I' && "INT_OR"@[1] == 'N' && "INT_OR"@[2] == 'T' && "INT_OR"@[3] == '_' && "INT_OR"@[4] == 'O' && "INT_OR"@[5] == 'R');
    reveal_strlit("INT_LEFT");
    assert("INT_LEFT"@.len() == 8 && "INT_LEFT"@[0] == 'I' && "INT_LEFT"@[1] == 'N' && "INT_LEFT"@[2] == 'T' && "INT_LEFT"@[3] == '_' && "INT_LEFT"@[4] == 'L' && "INT_LEFT"@[5] == 'E' && "INT_LEFT"@[6] == 'F' && "INT_LEFT"@[7] == 'T');
    reveal_strlit("INT_RIGHT");
    assert("INT_RIGHT"@.len() == 9 && "INT_RIGHT"@[0] == 'I' && "INT_RIGHT"@[1] == 'N' && "INT_RIGHT"@[2] == 'T' && "INT_RIGHT"@[3] == '_' && "INT_RIGHT"@[4] == 'R' && "INT_RIGHT"@[5] == 'I' && "INT_RIGHT"@[6] == 'G' && "INT_RIGHT"@[7] == 'H' && "INT_RIGHT"@[8] == 'T');
    reveal_strlit("INT_SRIGHT");
    assert("INT_SRIGHT"@.len() == 10 && "INT_SRIGHT"@[0] == 'I' && "INT_SRIGHT"@[1] == 'N' && "INT_SRIGHT"@[2] == 'T' && "INT_SRIGHT"@[3] == '_' && "INT_SRIGHT"@[4] == 'S' && "INT_SRIGHT"@[5] == 'R' && "INT_SRIGHT"@[6] == 'I' && "INT_SRIGHT"@[7] == 'G' && "INT_SRIGHT"@[8] == 'H' && "INT_SRIGHT"@[9] == 'T');
    reveal_strlit("INT_MULT");
    assert("INT_MULT"@.len() == 8 && "INT_MULT"@[0] == 'I' && "INT_MULT"@[1] == 'N' && "INT_MULT"@[2] == 'T' && "INT_MULT"@[3] == '_' && "INT_MULT"@[4] == 'M' && "INT_MULT"@[5] == 'U' && "INT_MULT"@[6] == 'L' && "INT_MULT"@[7] == 'T');
    reveal_strlit("INT_DIV");
    assert("INT_DIV"@.len() == 7 && "INT_DIV"@[0] == 'I' && "INT_DIV"@[1] == 'N' && "INT_DIV"@[2] == 'T' && "INT_DIV"@[3] == '_' && "INT_DIV"@[4] == 'D' && "INT_DIV"@[5] == 'I' && "INT_DIV"@[6] == 'V');
    reveal_strlit("INT_SDIV");
    assert("INT_SDIV"@.len() == 8 && "INT_SDIV"@[0] == 'I' && "INT_SDIV"@[1] == 'N' && "INT_SDIV"@[2] == 'T' && "INT_SDIV"@[3] == '_' && "INT_SDIV"@[4] == 'S' && "INT_SDIV"@[5] == 'D' && "INT_SDIV"@[6] == 'I' && "INT_SDIV"@[7] == 'V');
    reveal_strlit("INT_REM");
    assert("INT_REM"@.len() == 7 && "INT_REM"@[0] == 'I' && "INT_REM"@[1] == 'N' && "INT_REM"@[2] == 'T' && "INT_REM"@[3] == '_' && "INT_REM"@[4] == 'R' && "INT_REM"@[5] == 'E' && "INT_REM"@[6] == 'M');
    reveal_strlit("INT_SREM");
    assert("INT_SREM"@.len() == 8 && "INT_SREM"@[0] == 'I' && "INT_SREM"@[1] == 'N' && "INT_SREM"@[2] == 'T' && "INT_SREM"@[3] == '_' && "INT_SREM"@[4] == 'S' && "INT_SREM"@[5] == 'R' && "INT_SREM"@[6] == 'E' && "INT_SREM"@[7] == 'M');
    reveal_strlit("BOOL_NEGATE");
    assert("BOOL_NEGATE"@.len() == 11 && "BOOL_NEGATE"@[0] == 'B' && "BOOL_NEGATE"@[1] == 'O' && "BOOL_NEGATE"@[2] == 'O' && "BOOL_NEGATE"@[3] == 'L' && "BOOL_NEGATE"@[4] == '_' && "BOOL_NEGATE"@[5] == 'N' && "BOOL_NEGATE"@[6] == 'E' && "BOOL_NEGATE"@[7] == 'G' && "BOOL_NEGATE"@[8] == 'A' && "BOOL_NEGATE"@[9] == 'T' && "BOOL_NEGATE"@[10] == 'E');
    reveal_strlit("BOOL_XOR");
    assert("BOOL_XOR"@.len() == 8 && "BOOL_XOR"@[0] == 'B' && "BOOL_XOR"@[1] == 'O' && "BOOL_XOR"@[2] == 'O' && "BOOL_XOR"@[3] == 'L' && "BOOL_XOR"@[4] == '_' && "BOOL_XOR"@[5] == 'X' && "BOOL_XOR"@[6] == 'O' && "BOOL_XOR"@[7] == 'R');
    reveal_strlit("BOOL_AND");
    assert("BOOL_AND"@.len() == 8 && "BOOL_AND"@[0] == 'B' && "BOOL_AND"@[1] == 'O' && "BOOL_AND"@[2] == 'O' && "BOOL_AND"@[3] == 'L' && "BOOL_AND"@[4] == '_' && "BOOL_AND"@[5] == 'A' && "BOOL_AND"@[6] == 'N' && "BOOL_AND"@[7] == 'D');
    reveal_strlit("BOOL_OR");
    assert("BOOL_OR"@.len() == 7 && "BOOL_OR"@[0] == 'B' && "BOOL_OR"@[1] == 'O' && "BOOL_OR"@[2] == 'O' && "BOOL_OR"@[3] == 'L' && "BOOL_OR"@[4] == '_' && "BOOL_OR"@[5] == 'O' && "BOOL_OR"@[6] == 'R');
    reveal_strlit("FLOAT_EQUAL");
    assert("FLOAT_EQUAL"@.len() == 11 && "FLOAT_EQUAL"@[0] == 'F' && "FLOAT_EQUAL"@[1] == 'L' && "FLOAT_EQUAL"@[2] == 'O' && "FLOAT_EQUAL"@[3] == 'A' && "FLOAT_EQUAL"@[4] == 'T' && "FLOAT_EQUAL"@[5] == '_' && "FLOAT_EQUAL"@[6] == 'E' && "FLOAT_EQUAL"@[7] == 'Q' && "FLOAT_EQUAL"@[8] == 'U' && "FLOAT_EQUAL"@[9] == 'A' && "FLOAT_EQUAL"@[10] == 'L');
    reveal_strlit("FLOAT_NOTEQUAL");
    assert("FLOAT_NOTEQUAL"@.len() == 14 && "FLOAT_NOTEQUAL"@[0] == 'F' && "FLOAT_NOTEQUAL"@[1] == 'L' && "FLOAT_NOTEQUAL"@[2] == 'O' && "FLOAT_NOTEQUAL"@[3] == 'A' && "FLOAT_NOTEQUAL"@[4] == 'T' && "FLOAT_NOTEQUAL"@[5] == '_' && "FLOAT_NOTEQUAL"@[6] == 'N' && "FLOAT_NOTEQUAL"@[7] == 'O' && "FLOAT_NOTEQUAL"@[8] == 'T' && "FLOAT_NOTEQUAL"@[9] == 'E' && "FLOAT_NOTEQUAL"@[10] == 'Q' && "FLOAT_NOTEQUAL"@[11] == 'U' && "FLOAT_NOTEQUAL"@[12] == 'A' && "FLOAT_NOTEQUAL"@[13] == 'L');
    reveal_strlit("FLOAT_LESS");
    assert("FLOAT_LESS"@.len() == 10 && "FLOAT_LESS"@[0] == 'F' && "FLOAT_LESS"@[1] == 'L' && "FLOAT_LESS"@[2] == 'O' && "FLOAT_LESS"@[3] == 'A' && "FLOAT_LESS"@[4] == 'T' && "FLOAT_LESS"@[5] == '_' && "FLOAT_LESS"@[6] == 'L' && "FLOAT_LESS"@[7] == 'E' && "FLOAT_LESS"@[8] == 'S' && "FLOAT_LESS"@[9] == 'S');
    reveal_strlit("FLOAT_LESSEQUAL");
    assert("FLOAT_LESSEQUAL"@.len() == 15 && "FLOAT_LESSEQUAL"@[0] == 'F' && "FLOAT_LESSEQUAL"@[1] == 'L' && "FLOAT_LESSEQUAL"@[2] == 'O' && "FLOAT_LESSEQUAL"@[3] == 'A' && "FLOAT_LESSEQUAL"@[4] == 'T' && "FLOAT_LESSEQUAL"@[5] == '_' && "FLOAT_LESSEQUAL"@[6] == 'L' && "FLOAT_LESSEQUAL"@[7] == 'E' && "FLOAT_LESSEQUAL"@[8] == 'S' && "FLOAT_LESSEQUAL"@[9] == 'S' && "FLOAT_LESSEQUAL"@[10] == 'E' && "FLOAT_LESSEQUAL"@[11] == 'Q' && "FLOAT_LESSEQUAL"@[12] == 'U' && "FLOAT_LESSEQUAL"@[13] == 'A' && "FLOAT_LESSEQUAL"@[14] == 'L');
    reveal_strlit("FLOAT_NAN");
    assert("FLOAT_NAN"@.len() == 9 && "FLOAT_NAN"@[0] == 'F' && "FLOAT_NAN"@[1] == 'L' && "FLOAT_NAN"@[2] == 'O' && "FLOAT_NAN"@[3] == 'A' && "FLOAT_NAN"@[4] == 'T' && "FLOAT_NAN"@[5] == '_' && "FLOAT_NAN"@[6] == 'N' && "FLOAT_NAN"@[7] == 'A' && "FLOAT_NAN"@[8] == 'N');
    reveal_strlit("FLOAT_ADD");
    assert("FLOAT_ADD"@.len() == 9 && "FLOAT_ADD"@[0] == 'F' && "FLOAT_ADD"@[1] == 'L' && "FLOAT_ADD"@[2] == 'O' && "FLOAT_ADD"@[3] == 'A' && "FLOAT_ADD"@[4] == 'T' && "FLOAT_ADD"@[5] == '_' && "FLOAT_ADD"@[6] == 'A' && "FLOAT_ADD"@[7] == 'D' && "FLOAT_ADD"@[8] == 'D');
    reveal_strlit("FLOAT_DIV");
    assert("FLOAT_DIV"@.len() == 9 && "FLOAT_DIV"@[0] == 'F' && "FLOAT_DIV"@[1] == 'L' && "FLOAT_DIV"@[2] == 'O' && "FLOAT_DIV"@[3] == 'A' && "FLOAT_DIV"@[4] == 'T' && "FLOAT_DIV"@[5] == '_' && "FLOAT_DIV"@[6] == 'D' && "FLOAT_DIV"@[7] == 'I' && "FLOAT_DIV"@[8] == 'V');
    reveal_strlit("FLOAT_MULT");
    assert("FLOAT_MULT"@.len() == 10 && "FLOAT_MULT"@[0] == 'F' && "FLOAT_MULT"@[1] == 'L' && "FLOAT_MULT"@[2] == 'O' && "FLOAT_MULT"@[3] == 'A' && "FLOAT_MULT"@[4] == 'T' && "FLOAT_MULT"@[5] == '_' && "FLOAT_MULT"@[6] == 'M' && "FLOAT_MULT"@[7] == 'U' && "FLOAT_MULT"@[8] == 'L' && "FLOAT_MULT"@[9] == 'T');
    reveal_strlit("FLOAT_SUB");
    assert("FLOAT_SUB"@.len() == 9 && "FLOAT_SUB"@[0] == 'F' && "FLOAT_SUB"@[1] == 'L' && "FLOAT_SUB"@[2] == 'O' && "FLOAT_SUB"@[3] == 'A' && "FLOAT_SUB"@[4] == 'T' && "FLOAT_SUB"@[5] == '_' && "FLOAT_SUB"@[6] == 'S' && "FLOAT_SUB"@[7] == 'U' && "FLOAT_SUB"@[8] == 'B');
    reveal_strlit("FLOAT_NEG");
    assert("FLOAT_NEG"@.len() == 9 && "FLOAT_NEG"@[0] == 'F' && "FLOAT_NEG"@[1] == 'L' && "FLOAT_NEG"@[2] == 'O' && "FLOAT_NEG"@[3] == 'A' && "FLOAT_NEG"@[4] == 'T' && "FLOAT_NEG"@[5] == '_' && "FLOAT_NEG"@[6] == 'N' && "FLOAT_NEG"@[7] == 'E' && "FLOAT_NEG"@[8] == 'G');
    reveal_strlit("FLOAT_ABS");
    assert("FLOAT_ABS"@.len() == 9 && "FLOAT_ABS"@[0] == 'F' && "FLOAT_ABS"@[1] == 'L' && "FLOAT_ABS"@[2] == 'O' && "FLOAT_ABS"@[3] == 'A' && "FLOAT_ABS"@[4] == 'T' && "FLOAT_ABS"@[5] == '_' && "FLOAT_ABS"@[6] == 'A' && "FLOAT_ABS"@[7] == 'B' && "FLOAT_ABS"@[8] == 'S');
    reveal_strlit("FLOAT_SQRT");
    assert("FLOAT_SQRT"@.len() == 10 && "FLOAT_SQRT"@[0] == 'F' && "FLOAT_SQRT"@[1] == 'L' && "FLOAT_SQRT"@[2] == 'O' && "FLOAT_SQRT"@[3] == 'A' && "FLOAT_SQRT"@[4] == 'T' && "FLOAT_SQRT"@[5] == '_' && "FLOAT_SQRT"@[6] == 'S' && "FLOAT_SQRT"@[7] == 'Q' && "FLOAT_SQRT"@[8] == 'R' && "FLOAT_SQRT"@[9] == 'T');
    reveal_strlit("FLOAT_INT2FLOAT");
    assert("FLOAT_INT2FLOAT"@.len() == 15 && "FLOAT_INT2FLOAT"@[0] == 'F' && "FLOAT_INT2FLOAT"@[1] == 'L' && "FLOAT_INT2FLOAT"@[2] == 'O' && "FLOAT_INT2FLOAT"@[3] == 'A' && "FLOAT_INT2FLOAT"@[4] == 'T' && "FLOAT_INT2FLOAT"@[5] == '_' && "FLOAT_INT2FLOAT"@[6] == 'I' && "FLOAT_INT2FLOAT"@[7] == 'N' && "FLOAT_INT2FLOAT"@[8] == 'T' && "FLOAT_INT2FLOAT"@[9] == '2' && "FLOAT_INT2FLOAT"@[10] == 'F' && "FLOAT_INT2FLOAT"@[11] == 'L' && "FLOAT_INT2FLOAT"@[12] == 'O' && "FLOAT_INT2FLOAT"@[13] == 'A' && "FLOAT_INT2FLOAT"@[14] == 'T');
    reveal_strlit("FLOAT_FLOAT2FLOAT");
    assert("FLOAT_FLOAT2FLOAT"@.len() == 17 && "FLOAT_FLOAT2FLOAT"@[0] == 'F' && "FLOAT_FLOAT2FLOAT"@[1] == 'L' && "FLOAT_FLOAT2FLOAT"@[2] == 'O' && "FLOAT_FLOAT2FLOAT"@[3] == 'A' && "FLOAT_FLOAT2FLOAT"@[4] == 'T' && "FLOAT_FLOAT2FLOAT"@[5] == '_' && "FLOAT_FLOAT2FLOAT"@[6] == 'F' && "FLOAT_FLOAT2FLOAT"@[7] == 'L' && "FLOAT_FLOAT2FLOAT"@[8] == 'O' && "FLOAT_FLOAT2FLOAT"@[9] == 'A' && "FLOAT_FLOAT2FLOAT"@[10] == 'T' && "FLOAT_FLOAT2FLOAT"@[11] == '2' && "FLOAT_FLOAT2FLOAT"@[12] == 'F' && "FLOAT_FLOAT2FLOAT"@[13] == 'L' && "FLOAT_FLOAT2FLOAT"@[14] == 'O' && "FLOAT_FLOAT2FLOAT"@[15] == 'A' && "FLOAT_FLOAT2FLOAT"@[16] == 'T');
    reveal_strlit("FLOAT_TRUNC");
    assert("FLOAT_TRUNC"@.len() == 11 && "FLOAT_TRUNC"@[0] == 'F' && "FLOAT_TRUNC"@[1] == 'L' && "FLOAT_TRUNC"@[2] == 'O' && "FLOAT_TRUNC"@[3] == 'A' && "FLOAT_TRUNC"@[4] == 'T' && "FLOAT_TRUNC"@[5] == '_' && "FLOAT_TRUNC"@[6] == 'T' && "FLOAT_TRUNC"@[7] == 'R' && "FLOAT_TRUNC"@[8] == 'U' && "FLOAT_TRUNC"@[9] == 'N' && "FLOAT_TRUNC"@[10] == 'C');
    reveal_strlit("FLOAT_CEIL");
    assert("FLOAT_CEIL"@.len() == 10 && "FLOAT_CEIL"@[0] == 'F' && "FLOAT_CEIL"@[1] == 'L' && "FLOAT_CEIL"@[2] == 'O' && "FLOAT_CEIL"@[3] == 'A' && "FLOAT_CEIL"@[4] == 'T' && "FLOAT_CEIL"@[5] == '_' && "FLOAT_CEIL"@[6] == 'C' && "FLOAT_CEIL"@[7] == 'E' && "FLOAT_CEIL"@[8] == 'I' && "FLOAT_CEIL"@[9] == 'L');
    reveal_strlit("FLOAT_FLOOR");
    assert("FLOAT_FLOOR"@.len() == 11 && "FLOAT_FLOOR"@[0] == 'F' && "FLOAT_FLOOR"@[1] == 'L' && "FLOAT_FLOOR"@[2] == 'O' && "FLOAT_FLOOR"@[3] == 'A' && "FLOAT_FLOOR"@[4] == 'T' && "FLOAT_FLOOR"@[5] == '_' && "FLOAT_FLOOR"@[6] == 'F' && "FLOAT_FLOOR"@[7] == 'L' && "FLOAT_FLOOR"@[8] == 'O' && "FLOAT_FLOOR"@[9] == 'O' && "FLOAT_FLOOR"@[10] == 'R');
    reveal_strlit("FLOAT_ROUND");
    assert("FLOAT_ROUND"@.len() == 11 && "FLOAT_ROUND"@[0] == 'F' && "FLOAT_ROUND"@[1] == 'L' && "FLOAT_ROUND"@[2] == 'O' && "FLOAT_ROUND"@[3] == 'A' && "FLOAT_ROUND"@[4] == 'T' && "FLOAT_ROUND"@[5] == '_' && "FLOAT_ROUND"@[6] == 'R' && "FLOAT_ROUND"@[7] == 'O' && "FLOAT_ROUND"@[8] == 'U' && "FLOAT_ROUND"@[9] == 'N' && "FLOAT_ROUND"@[10] == 'D');
    reveal_strlit("MULTIEQUAL");
    assert("MULTIEQUAL"@.len() == 10 && "MULTIEQUAL"@[0] == 'M' && "MULTIEQUAL"@[1] == 'U' && "MULTIEQUAL"@[2] == 'L' && "MULTIEQUAL"@[3] == 'T' && "MULTIEQUAL"@[4] == 'I' && "MULTIEQUAL"@[5] == 'E' && "MULTIEQUAL"@[6] == 'Q' && "MULTIEQUAL"@[7] == 'U' && "MULTIEQUAL"@[8] == 'A' && "MULTIEQUAL"@[9] == 'L');
    reveal_strlit("INDIRECT");
    assert("INDIRECT"@.len() == 8 && "INDIRECT"@[0] == 'I' && "INDIRECT"@[1] == 'N' && "INDIRECT"@[2] == 'D' && "INDIRECT"@[3] == 'I' && "INDIRECT"@[4] == 'R' && "INDIRECT"@[5] == 'E' && "INDIRECT"@[6] == 'C' && "INDIRECT"@[7] == 'T');
    reveal_strlit("PIECE");
    assert("PIECE"@.len() == 5 && "PIECE"@[0] == 'P' && "PIECE"@[1] == 'I' && "PIECE"@[2] == 'E' && "PIECE"@[3] == 'C' && "PIECE"@[4] == 'E');
    reveal_strlit("SUBPIECE");
    assert("SUBPIECE"@.len() == 8 && "SUBPIECE"@[0] == 'S' && "SUBPIECE"@[1] == 'U' && "SUBPIECE"@[2] == 'B' && "SUBPIECE"@[3] == 'P' && "SUBPIECE"@[4] == 'I' && "SUBPIECE"@[5] == 'E' && "SUBPIECE"@[6] == 'C' && "SUBPIECE"@[7] == 'E');
    reveal_strlit("CAST");
    assert("CAST"@.len() == 4 && "CAST"@[0] == 'C' && "CAST"@[1] == 'A' && "CAST"@[2] == 'S' && "CAST"@[3] == 'T');
    reveal_strlit("PTRADD");
    assert("PTRADD"@.len() == 6 && "PTRADD"@[0] == 'P' && "PTRADD"@[1] == 'T' && "PTRADD"@[2] == 'R' && "PTRADD"@[3] == 'A' && "PTRADD"@[4] == 'D' && "PTRADD"@[5] == 'D');
    reveal_strlit("PTRSUB");
    assert("PTRSUB"@.len() == 6 && "PTRSUB"@[0] == 'P' && "PTRSUB"@[1] == 'T' && "PTRSUB"@[2] == 'R' && "PTRSUB"@[3] == 'S' && "PTRSUB"@[4] == 'U' && "PTRSUB"@[5] == 'B');
    reveal_strlit("SEGMENTOP");
    assert("SEGMENTOP"@.len() == 9 && "SEGMENTOP"@[0] == 'S' && "SEGMENTOP"@[1] == 'E' && "SEGMENTOP"@[2] == 'G' && "SEGMENTOP"@[3] == 'M' && "SEGMENTOP"@[4] == 'E' && "SEGMENTOP"@[5] == 'N' && "SEGMENTOP"@[6] == 'T' && "SEGMENTOP"@[7] == 'O' && "SEGMENTOP"@[8] == 'P');
    reveal_strlit("CPOOLREF");
    assert("CPOOLREF"@.len() == 8 && "CPOOLREF"@[0] == 'C' && "CPOOLREF"@[1] == 'P' && "CPOOLREF"@[2] == 'O' && "CPOOLREF"@[3] == 'O' && "CPOOLREF"@[4] == 'L' && "CPOOLREF"@[5] == 'R' && "CPOOLREF"@[6] == 'E' && "CPOOLREF"@[7] == 'F');
    reveal_strlit("NEW");
    assert("NEW"@.len() == 3 && "NEW"@[0] == 'N' && "NEW"@[1] == 'E' && "NEW"@[2] == 'W');
    reveal_strlit("INSERT");
    assert("INSERT"@.len() == 6 && "INSERT"@[0] == 'I' && "INSERT"@[1] == 'N' && "INSERT"@[2] == 'S' && "INSERT"@[3] == 'E' && "INSERT"@[4] == 'R' && "INSERT"@[5] == 'T');
    reveal_strlit("EXTRACT");
    assert("EXTRACT"@.len() == 7 && "EXTRACT"@[0] == 'E' && "EXTRACT"@[1] == 'X' && "EXTRACT"@[2] == 'T' && "EXTRACT"@[3] == 'R' && "EXTRACT"@[4] == 'A' && "EXTRACT"@[5] == 'C' && "EXTRACT"@[6] == 'T');
    reveal_strlit("POPCOUNT");
    assert("POPCOUNT"@.len() == 8 && "POPCOUNT"@[0] == 'P' && "POPCOUNT"@[1] == 'O' && "POPCOUNT"@[2] == 'P' && "POPCOUNT"@[3] == 'C' && "POPCOUNT"@[4] == 'O' && "POPCOUNT"@[5] == 'U' && "POPCOUNT"@[6] == 'N' && "POPCOUNT"@[7] == 'T');
}

/// Different operations have different names.
pub proof fn lemma_to_str_injective(a: OpCode, b: OpCode)
    requires
        spec_to_str(a) is Some,
        spec_to_str(a) == spec_to_str(b),
    ensures
        a == b,
{
    lemma_to_str_decodes(a);
    lemma_to_str_decodes(b);
}


/// The operation names are pairwise distinct.
pub proof fn lemma_to_str_distinct(a: OpCode, b: OpCode)
    requires
        a != b,
        spec_to_str(a) is Some,
        spec_to_str(b) is Some,
    ensures
        spec_to_str(a).unwrap() != spec_to_str(b).unwrap(),
{
    if spec_to_str(a).unwrap() == spec_to_str(b).unwrap() {
        lemma_to_str_injective(a, b);
    }
}

} // verus!
