//! P-code operation codes.
use vstd::prelude::*;
use crate::text::{chars_of, chars_eq_str, push_str};

verus! {

/// The operation that a p-code op performs.
#[derive(PartialEq, Eq, Structural, PartialOrd, Ord, Hash, Copy, Clone, Debug)]
pub enum OpCode {
    Copy,
    Load,
    Store,
    Branch,
    CBranch,
    BranchInd,
    Call,
    CallInd,
    CallOther,
    Return,
    IntEqual,
    IntNotEqual,
    IntSLess,
    IntSLessEqual,
    IntLess,
    IntLessEqual,
    IntZext,
    IntSext,
    IntAdd,
    IntSub,
    IntCarry,
    IntSCarry,
    IntSBorrow,
    Int2Comp,
    IntNegate,
    IntXor,
    IntAnd,
    IntOr,
    IntLeft,
    IntRight,
    IntSRight,
    IntMult,
    IntDiv,
    IntSDiv,
    IntRem,
    IntSRem,
    BoolNegate,
    BoolXor,
    BoolAnd,
    BoolOr,
    FloatEqual,
    FloatNotEqual,
    FloatLess,
    FloatLessEqual,
    FloatNan,
    FloatAdd,
    FloatDiv,
    FloatMult,
    FloatSub,
    FloatNeg,
    FloatAbs,
    FloatSqrt,
    FloatInt2Float,
    FloatFloat2Float,
    FloatTrunc,
    FloatCeil,
    FloatFloor,
    FloatRound,
    MultiEqual,
    Indidrect,
    Piece,
    SubPiece,
    Cast,
    PtrAdd,
    PtrSub,
    SegmentOp,
    CPoolRef,
    New,
    Insert,
    Extract,
    PopCount,
    Label,
    IntSGreater,
    IntSGreaterEqual,
    IntGreater,
    IntGreaterEqual,
    AddrOf,
    Deref,
    Truncate,
    Decl,
    DeclCopy,
    ArrayIndex,
    FieldAccess,
    FieldDeref,
    Switch,
}

/// The error of reading an operation name that no operation has.
#[derive(PartialEq, Eq, Structural, Debug)]
pub struct ParseOpCodeError;

/// The operation that a name of a specification file's op template denotes.
pub open spec fn spec_opcode_of_name(s: Seq<char>) -> Option<OpCode> {
    if s == "COPY"@ {
        Some(OpCode::Copy)
    } else if s == "LOAD"@ {
        Some(OpCode::Load)
    } else if s == "STORE"@ {
        Some(OpCode::Store)
    } else if s == "BRANCH"@ {
        Some(OpCode::Branch)
    } else if s == "CBRANCH"@ {
        Some(OpCode::CBranch)
    } else if s == "BRANCHIND"@ {
        Some(OpCode::BranchInd)
    } else if s == "CALL"@ {
        Some(OpCode::Call)
    } else if s == "CALLIND"@ {
        Some(OpCode::CallInd)
    } else if s == "CALLOTHER"@ {
        Some(OpCode::CallOther)
    } else if s == "RETURN"@ {
        Some(OpCode::Return)
    } else if s == "INT_EQUAL"@ {
        Some(OpCode::IntEqual)
    } else if s == "INT_NOTEQUAL"@ {
        Some(OpCode::IntNotEqual)
    } else if s == "INT_SLESS"@ {
        Some(OpCode::IntSLess)
    } else if s == "INT_SLESSEQUAL"@ {
        Some(OpCode::IntSLessEqual)
    } else if s == "INT_LESS"@ {
        Some(OpCode::IntLess)
    } else if s == "INT_LESSEQUAL"@ {
        Some(OpCode::IntLessEqual)
    } else if s == "INT_ZEXT"@ {
        Some(OpCode::IntZext)
    } else if s == "INT_SEXT"@ {
        Some(OpCode::IntSext)
    } else if s == "INT_ADD"@ {
        Some(OpCode::IntAdd)
    } else if s == "INT_SUB"@ {
        Some(OpCode::IntSub)
    } else if s == "INT_CARRY"@ {
        Some(OpCode::IntCarry)
    } else if s == "INT_SCARRY"@ {
        Some(OpCode::IntSCarry)
    } else if s == "INT_SBORROW"@ {
        Some(OpCode::IntSBorrow)
    } else if s == "INT_2COMP"@ {
        Some(OpCode::Int2Comp)
    } else if s == "INT_NEGATE"@ {
        Some(OpCode::IntNegate)
    } else if s == "INT_XOR"@ {
        Some(OpCode::IntXor)
    } else if s == "INT_AND"@ {
        Some(OpCode::IntAnd)
    } else if s == "INT_OR"@ {
        Some(OpCode::IntOr)
    } else if s == "INT_LEFT"@ {
        Some(OpCode::IntLeft)
    } else if s == "INT_RIGHT"@ {
        Some(OpCode::IntRight)
    } else if s == "INT_SRIGHT"@ {
        Some(OpCode::IntSRight)
    } else if s == "INT_MULT"@ {
        Some(OpCode::IntMult)
    } else if s == "INT_DIV"@ {
        Some(OpCode::IntDiv)
    } else if s == "INT_SDIV"@ {
        Some(OpCode::IntSDiv)
    } else if s == "INT_REM"@ {
        Some(OpCode::IntRem)
    } else if s == "INT_SREM"@ {
        Some(OpCode::IntSRem)
    } else if s == "BOOL_NEGATE"@ {
        Some(OpCode::BoolNegate)
    } else if s == "BOOL_XOR"@ {
        Some(OpCode::BoolXor)
    } else if s == "BOOL_AND"@ {
        Some(OpCode::BoolAnd)
    } else if s == "BOOL_OR"@ {
        Some(OpCode::BoolOr)
    } else if s == "FLOAT_EQUAL"@ {
        Some(OpCode::FloatEqual)
    } else if s == "FLOAT_NOTEQUAL"@ {
        Some(OpCode::FloatNotEqual)
    } else if s == "FLOAT_LESS"@ {
        Some(OpCode::FloatLess)
    } else if s == "FLOAT_LESSEQUAL"@ {
        Some(OpCode::FloatLessEqual)
    } else if s == "FLOAT_NAN"@ {
        Some(OpCode::FloatNan)
    } else if s == "FLOAT_ADD"@ {
        Some(OpCode::FloatAdd)
    } else if s == "FLOAT_DIV"@ {
        Some(OpCode::FloatDiv)
    } else if s == "FLOAT_MULT"@ {
        Some(OpCode::FloatMult)
    } else if s == "FLOAT_SUB"@ {
        Some(OpCode::FloatSub)
    } else if s == "FLOAT_NEG"@ {
        Some(OpCode::FloatNeg)
    } else if s == "FLOAT_ABS"@ {
        Some(OpCode::FloatAbs)
    } else if s == "FLOAT_SQRT"@ {
        Some(OpCode::FloatSqrt)
    } else if s == "INT2FLOAT"@ {
        Some(OpCode::FloatInt2Float)
    } else if s == "FLOAT2FLOAT"@ {
        Some(OpCode::FloatFloat2Float)
    } else if s == "TRUNC"@ {
        Some(OpCode::FloatTrunc)
    } else if s == "CEIL"@ {
        Some(OpCode::FloatCeil)
    } else if s == "FLOOR"@ {
        Some(OpCode::FloatFloor)
    } else if s == "ROUND"@ {
        Some(OpCode::FloatRound)
    } else if s == "MULTIEQUAL"@ {
        Some(OpCode::MultiEqual)
    } else if s == "INDIRECT"@ {
        Some(OpCode::Indidrect)
    } else if s == "PIECE"@ {
        Some(OpCode::Piece)
    } else if s == "SUBPIECE"@ {
        Some(OpCode::SubPiece)
    } else if s == "CAST"@ {
        Some(OpCode::Cast)
    } else if s == "PTRADD"@ {
        Some(OpCode::PtrAdd)
    } else if s == "PTRSUB"@ {
        Some(OpCode::PtrSub)
    } else if s == "SEGMENTOP"@ {
        Some(OpCode::SegmentOp)
    } else if s == "CPOOLREF"@ {
        Some(OpCode::CPoolRef)
    } else if s == "NEW"@ {
        Some(OpCode::New)
    } else if s == "INSERT"@ {
        Some(OpCode::Insert)
    } else if s == "EXTRACT"@ {
        Some(OpCode::Extract)
    } else if s == "POPCOUNT"@ {
        Some(OpCode::PopCount)
    } else if s == "LABEL"@ {
        Some(OpCode::Label)
    } else {
        None
    }
}

/// The printed name of an operation: its variant name.
pub open spec fn spec_opcode_text(op: OpCode) -> Seq<char> {
    match op {
        OpCode::Copy => "Copy"@,
        OpCode::Load => "Load"@,
        OpCode::Store => "Store"@,
        OpCode::Branch => "Branch"@,
        OpCode::CBranch => "CBranch"@,
        OpCode::BranchInd => "BranchInd"@,
        OpCode::Call => "Call"@,
        OpCode::CallInd => "CallInd"@,
        OpCode::CallOther => "CallOther"@,
        OpCode::Return => "Return"@,
        OpCode::IntEqual => "IntEqual"@,
        OpCode::IntNotEqual => "IntNotEqual"@,
        OpCode::IntSLess => "IntSLess"@,
        OpCode::IntSLessEqual => "IntSLessEqual"@,
        OpCode::IntLess => "IntLess"@,
        OpCode::IntLessEqual => "IntLessEqual"@,
        OpCode::IntZext => "IntZext"@,
        OpCode::IntSext => "IntSext"@,
        OpCode::IntAdd => "IntAdd"@,
        OpCode::IntSub => "IntSub"@,
        OpCode::IntCarry => "IntCarry"@,
        OpCode::IntSCarry => "IntSCarry"@,
        OpCode::IntSBorrow => "IntSBorrow"@,
        OpCode::Int2Comp => "Int2Comp"@,
        OpCode::IntNegate => "IntNegate"@,
        OpCode::IntXor => "IntXor"@,
        OpCode::IntAnd => "IntAnd"@,
        OpCode::IntOr => "IntOr"@,
        OpCode::IntLeft => "IntLeft"@,
        OpCode::IntRight => "IntRight"@,
        OpCode::IntSRight => "IntSRight"@,
        OpCode::IntMult => "IntMult"@,
        OpCode::IntDiv => "IntDiv"@,
        OpCode::IntSDiv => "IntSDiv"@,
        OpCode::IntRem => "IntRem"@,
        OpCode::IntSRem => "IntSRem"@,
        OpCode::BoolNegate => "BoolNegate"@,
        OpCode::BoolXor => "BoolXor"@,
        OpCode::BoolAnd => "BoolAnd"@,
        OpCode::BoolOr => "BoolOr"@,
        OpCode::FloatEqual => "FloatEqual"@,
        OpCode::FloatNotEqual => "FloatNotEqual"@,
        OpCode::FloatLess => "FloatLess"@,
        OpCode::FloatLessEqual => "FloatLessEqual"@,
        OpCode::FloatNan => "FloatNan"@,
        OpCode::FloatAdd => "FloatAdd"@,
        OpCode::FloatDiv => "FloatDiv"@,
        OpCode::FloatMult => "FloatMult"@,
        OpCode::FloatSub => "FloatSub"@,
        OpCode::FloatNeg => "FloatNeg"@,
        OpCode::FloatAbs => "FloatAbs"@,
        OpCode::FloatSqrt => "FloatSqrt"@,
        OpCode::FloatInt2Float => "FloatInt2Float"@,
        OpCode::FloatFloat2Float => "FloatFloat2Float"@,
        OpCode::FloatTrunc => "FloatTrunc"@,
        OpCode::FloatCeil => "FloatCeil"@,
        OpCode::FloatFloor => "FloatFloor"@,
        OpCode::FloatRound => "FloatRound"@,
        OpCode::MultiEqual => "MultiEqual"@,
        OpCode::Indidrect => "Indidrect"@,
        OpCode::Piece => "Piece"@,
        OpCode::SubPiece => "SubPiece"@,
        OpCode::Cast => "Cast"@,
        OpCode::PtrAdd => "PtrAdd"@,
        OpCode::PtrSub => "PtrSub"@,
        OpCode::SegmentOp => "SegmentOp"@,
        OpCode::CPoolRef => "CPoolRef"@,
        OpCode::New => "New"@,
        OpCode::Insert => "Insert"@,
        OpCode::Extract => "Extract"@,
        OpCode::PopCount => "PopCount"@,
        OpCode::Label => "Label"@,
        OpCode::IntSGreater => "IntSGreater"@,
        OpCode::IntSGreaterEqual => "IntSGreaterEqual"@,
        OpCode::IntGreater => "IntGreater"@,
        OpCode::IntGreaterEqual => "IntGreaterEqual"@,
        OpCode::AddrOf => "AddrOf"@,
        OpCode::Deref => "Deref"@,
        OpCode::Truncate => "Truncate"@,
        OpCode::Decl => "Decl"@,
        OpCode::DeclCopy => "DeclCopy"@,
        OpCode::ArrayIndex => "ArrayIndex"@,
        OpCode::FieldAccess => "FieldAccess"@,
        OpCode::FieldDeref => "FieldDeref"@,
        OpCode::Switch => "Switch"@,
    }
}

/// The operations that have an inverse comparison or arithmetic operation.
pub open spec fn spec_has_defined_inverse(op: OpCode) -> bool {
    spec_inverse(op) is Some
}

/// The inverse of an operation: addition and subtraction undo each other, and each comparison
/// maps to its negation.
pub open spec fn spec_inverse(op: OpCode) -> Option<OpCode> {
    match op {
        OpCode::IntAdd => Some(OpCode::IntSub),
        OpCode::IntSub => Some(OpCode::IntAdd),
        OpCode::IntEqual => Some(OpCode::IntNotEqual),
        OpCode::IntNotEqual => Some(OpCode::IntEqual),
        OpCode::IntSLess => Some(OpCode::IntSGreaterEqual),
        OpCode::IntSLessEqual => Some(OpCode::IntSGreater),
        OpCode::IntLess => Some(OpCode::IntGreaterEqual),
        OpCode::IntLessEqual => Some(OpCode::IntGreater),
        OpCode::IntSGreaterEqual => Some(OpCode::IntSLess),
        OpCode::IntSGreater => Some(OpCode::IntSLessEqual),
        OpCode::IntGreaterEqual => Some(OpCode::IntLess),
        OpCode::IntGreater => Some(OpCode::IntLessEqual),
        _ => None,
    }
}

/// The comparisons and boolean negation.
pub open spec fn spec_is_conditional(op: OpCode) -> bool {
    matches!(op,
        OpCode::BoolNegate | OpCode::IntEqual | OpCode::IntNotEqual | OpCode::IntLess
        | OpCode::IntSLess | OpCode::IntLessEqual | OpCode::IntSLessEqual | OpCode::IntGreater
        | OpCode::IntSGreater | OpCode::IntGreaterEqual | OpCode::IntSGreaterEqual)
}

impl OpCode {
    /// The operation that `s` names, as written in specification files.
    pub fn from_str(s: &str) -> (r: Result<OpCode, ParseOpCodeError>)
        ensures
            match spec_opcode_of_name(s@) {
                Some(op) => r == Ok::<OpCode, ParseOpCodeError>(op),
                None => r is Err,
            },
    {
        let v = chars_of(s);
        let c = v.as_slice();
        if chars_eq_str(c, "COPY") {
            Ok(OpCode::Copy)
        } else if chars_eq_str(c, "LOAD") {
            Ok(OpCode::Load)
        } else if chars_eq_str(c, "STORE") {
            Ok(OpCode::Store)
        } else if chars_eq_str(c, "BRANCH") {
            Ok(OpCode::Branch)
        } else if chars_eq_str(c, "CBRANCH") {
            Ok(OpCode::CBranch)
        } else if chars_eq_str(c, "BRANCHIND") {
            Ok(OpCode::BranchInd)
        } else if chars_eq_str(c, "CALL") {
            Ok(OpCode::Call)
        } else if chars_eq_str(c, "CALLIND") {
            Ok(OpCode::CallInd)
        } else if chars_eq_str(c, "CALLOTHER") {
            Ok(OpCode::CallOther)
        } else if chars_eq_str(c, "RETURN") {
            Ok(OpCode::Return)
        } else if chars_eq_str(c, "INT_EQUAL") {
            Ok(OpCode::IntEqual)
        } else if chars_eq_str(c, "INT_NOTEQUAL") {
            Ok(OpCode::IntNotEqual)
        } else if chars_eq_str(c, "INT_SLESS") {
            Ok(OpCode::IntSLess)
        } else if chars_eq_str(c, "INT_SLESSEQUAL") {
            Ok(OpCode::IntSLessEqual)
        } else if chars_eq_str(c, "INT_LESS") {
            Ok(OpCode::IntLess)
        } else if chars_eq_str(c, "INT_LESSEQUAL") {
            Ok(OpCode::IntLessEqual)
        } else if chars_eq_str(c, "INT_ZEXT") {
            Ok(OpCode::IntZext)
        } else if chars_eq_str(c, "INT_SEXT") {
            Ok(OpCode::IntSext)
        } else if chars_eq_str(c, "INT_ADD") {
            Ok(OpCode::IntAdd)
        } else if chars_eq_str(c, "INT_SUB") {
            Ok(OpCode::IntSub)
        } else if chars_eq_str(c, "INT_CARRY") {
            Ok(OpCode::IntCarry)
        } else if chars_eq_str(c, "INT_SCARRY") {
            Ok(OpCode::IntSCarry)
        } else if chars_eq_str(c, "INT_SBORROW") {
            Ok(OpCode::IntSBorrow)
        } else if chars_eq_str(c, "INT_2COMP") {
            Ok(OpCode::Int2Comp)
        } else if chars_eq_str(c, "INT_NEGATE") {
            Ok(OpCode::IntNegate)
        } else if chars_eq_str(c, "INT_XOR") {
            Ok(OpCode::IntXor)
        } else if chars_eq_str(c, "INT_AND") {
            Ok(OpCode::IntAnd)
        } else if chars_eq_str(c, "INT_OR") {
            Ok(OpCode::IntOr)
        } else if chars_eq_str(c, "INT_LEFT") {
            Ok(OpCode::IntLeft)
        } else if chars_eq_str(c, "INT_RIGHT") {
            Ok(OpCode::IntRight)
        } else if chars_eq_str(c, "INT_SRIGHT") {
            Ok(OpCode::IntSRight)
        } else if chars_eq_str(c, "INT_MULT") {
            Ok(OpCode::IntMult)
        } else if chars_eq_str(c, "INT_DIV") {
            Ok(OpCode::IntDiv)
        } else if chars_eq_str(c, "INT_SDIV") {
            Ok(OpCode::IntSDiv)
        } else if chars_eq_str(c, "INT_REM") {
            Ok(OpCode::IntRem)
        } else if chars_eq_str(c, "INT_SREM") {
            Ok(OpCode::IntSRem)
        } else if chars_eq_str(c, "BOOL_NEGATE") {
            Ok(OpCode::BoolNegate)
        } else if chars_eq_str(c, "BOOL_XOR") {
            Ok(OpCode::BoolXor)
        } else if chars_eq_str(c, "BOOL_AND") {
            Ok(OpCode::BoolAnd)
        } else if chars_eq_str(c, "BOOL_OR") {
            Ok(OpCode::BoolOr)
        } else if chars_eq_str(c, "FLOAT_EQUAL") {
            Ok(OpCode::FloatEqual)
        } else if chars_eq_str(c, "FLOAT_NOTEQUAL") {
            Ok(OpCode::FloatNotEqual)
        } else if chars_eq_str(c, "FLOAT_LESS") {
            Ok(OpCode::FloatLess)
        } else if chars_eq_str(c, "FLOAT_LESSEQUAL") {
            Ok(OpCode::FloatLessEqual)
        } else if chars_eq_str(c, "FLOAT_NAN") {
            Ok(OpCode::FloatNan)
        } else if chars_eq_str(c, "FLOAT_ADD") {
            Ok(OpCode::FloatAdd)
        } else if chars_eq_str(c, "FLOAT_DIV") {
            Ok(OpCode::FloatDiv)
        } else if chars_eq_str(c, "FLOAT_MULT") {
            Ok(OpCode::FloatMult)
        } else if chars_eq_str(c, "FLOAT_SUB") {
            Ok(OpCode::FloatSub)
        } else if chars_eq_str(c, "FLOAT_NEG") {
            Ok(OpCode::FloatNeg)
        } else if chars_eq_str(c, "FLOAT_ABS") {
            Ok(OpCode::FloatAbs)
        } else if chars_eq_str(c, "FLOAT_SQRT") {
            Ok(OpCode::FloatSqrt)
        } else if chars_eq_str(c, "INT2FLOAT") {
            Ok(OpCode::FloatInt2Float)
        } else if chars_eq_str(c, "FLOAT2FLOAT") {
            Ok(OpCode::FloatFloat2Float)
        } else if chars_eq_str(c, "TRUNC") {
            Ok(OpCode::FloatTrunc)
        } else if chars_eq_str(c, "CEIL") {
            Ok(OpCode::FloatCeil)
        } else if chars_eq_str(c, "FLOOR") {
            Ok(OpCode::FloatFloor)
        } else if chars_eq_str(c, "ROUND") {
            Ok(OpCode::FloatRound)
        } else if chars_eq_str(c, "MULTIEQUAL") {
            Ok(OpCode::MultiEqual)
        } else if chars_eq_str(c, "INDIRECT") {
            Ok(OpCode::Indidrect)
        } else if chars_eq_str(c, "PIECE") {
            Ok(OpCode::Piece)
        } else if chars_eq_str(c, "SUBPIECE") {
            Ok(OpCode::SubPiece)
        } else if chars_eq_str(c, "CAST") {
            Ok(OpCode::Cast)
        } else if chars_eq_str(c, "PTRADD") {
            Ok(OpCode::PtrAdd)
        } else if chars_eq_str(c, "PTRSUB") {
            Ok(OpCode::PtrSub)
        } else if chars_eq_str(c, "SEGMENTOP") {
            Ok(OpCode::SegmentOp)
        } else if chars_eq_str(c, "CPOOLREF") {
            Ok(OpCode::CPoolRef)
        } else if chars_eq_str(c, "NEW") {
            Ok(OpCode::New)
        } else if chars_eq_str(c, "INSERT") {
            Ok(OpCode::Insert)
        } else if chars_eq_str(c, "EXTRACT") {
            Ok(OpCode::Extract)
        } else if chars_eq_str(c, "POPCOUNT") {
            Ok(OpCode::PopCount)
        } else if chars_eq_str(c, "LABEL") {
            Ok(OpCode::Label)
        } else {
            Err(ParseOpCodeError)
        }
    }

    /// The printed name of the operation.
    pub fn to_string(&self) -> (r: String)
        ensures
            r@ == spec_opcode_text(*self),
    {
        let t = match self {
            OpCode::Copy => "Copy",
            OpCode::Load => "Load",
            OpCode::Store => "Store",
            OpCode::Branch => "Branch",
            OpCode::CBranch => "CBranch",
            OpCode::BranchInd => "BranchInd",
            OpCode::Call => "Call",
            OpCode::CallInd => "CallInd",
            OpCode::CallOther => "CallOther",
            OpCode::Return => "Return",
            OpCode::IntEqual => "IntEqual",
            OpCode::IntNotEqual => "IntNotEqual",
            OpCode::IntSLess => "IntSLess",
            OpCode::IntSLessEqual => "IntSLessEqual",
            OpCode::IntLess => "IntLess",
            OpCode::IntLessEqual => "IntLessEqual",
            OpCode::IntZext => "IntZext",
            OpCode::IntSext => "IntSext",
            OpCode::IntAdd => "IntAdd",
            OpCode::IntSub => "IntSub",
            OpCode::IntCarry => "IntCarry",
            OpCode::IntSCarry => "IntSCarry",
            OpCode::IntSBorrow => "IntSBorrow",
            OpCode::Int2Comp => "Int2Comp",
            OpCode::IntNegate => "IntNegate",
            OpCode::IntXor => "IntXor",
            OpCode::IntAnd => "IntAnd",
            OpCode::IntOr => "IntOr",
            OpCode::IntLeft => "IntLeft",
            OpCode::IntRight => "IntRight",
            OpCode::IntSRight => "IntSRight",
            OpCode::IntMult => "IntMult",
            OpCode::IntDiv => "IntDiv",
            OpCode::IntSDiv => "IntSDiv",
            OpCode::IntRem => "IntRem",
            OpCode::IntSRem => "IntSRem",
            OpCode::BoolNegate => "BoolNegate",
            OpCode::BoolXor => "BoolXor",
            OpCode::BoolAnd => "BoolAnd",
            OpCode::BoolOr => "BoolOr",
            OpCode::FloatEqual => "FloatEqual",
            OpCode::FloatNotEqual => "FloatNotEqual",
            OpCode::FloatLess => "FloatLess",
            OpCode::FloatLessEqual => "FloatLessEqual",
            OpCode::FloatNan => "FloatNan",
            OpCode::FloatAdd => "FloatAdd",
            OpCode::FloatDiv => "FloatDiv",
            OpCode::FloatMult => "FloatMult",
            OpCode::FloatSub => "FloatSub",
            OpCode::FloatNeg => "FloatNeg",
            OpCode::FloatAbs => "FloatAbs",
            OpCode::FloatSqrt => "FloatSqrt",
            OpCode::FloatInt2Float => "FloatInt2Float",
            OpCode::FloatFloat2Float => "FloatFloat2Float",
            OpCode::FloatTrunc => "FloatTrunc",
            OpCode::FloatCeil => "FloatCeil",
            OpCode::FloatFloor => "FloatFloor",
            OpCode::FloatRound => "FloatRound",
            OpCode::MultiEqual => "MultiEqual",
            OpCode::Indidrect => "Indidrect",
            OpCode::Piece => "Piece",
            OpCode::SubPiece => "SubPiece",
            OpCode::Cast => "Cast",
            OpCode::PtrAdd => "PtrAdd",
            OpCode::PtrSub => "PtrSub",
            OpCode::SegmentOp => "SegmentOp",
            OpCode::CPoolRef => "CPoolRef",
            OpCode::New => "New",
            OpCode::Insert => "Insert",
            OpCode::Extract => "Extract",
            OpCode::PopCount => "PopCount",
            OpCode::Label => "Label",
            OpCode::IntSGreater => "IntSGreater",
            OpCode::IntSGreaterEqual => "IntSGreaterEqual",
            OpCode::IntGreater => "IntGreater",
            OpCode::IntGreaterEqual => "IntGreaterEqual",
            OpCode::AddrOf => "AddrOf",
            OpCode::Deref => "Deref",
            OpCode::Truncate => "Truncate",
            OpCode::Decl => "Decl",
            OpCode::DeclCopy => "DeclCopy",
            OpCode::ArrayIndex => "ArrayIndex",
            OpCode::FieldAccess => "FieldAccess",
            OpCode::FieldDeref => "FieldDeref",
            OpCode::Switch => "Switch",
        };
        let mut s = String::new();
        push_str(&mut s, t);
        s
    }

    /// The inverse operation; only additions, subtractions and integer comparisons have one.
    pub fn inverse(self) -> (r: OpCode)
        requires
            spec_has_defined_inverse(self),
        ensures
            spec_inverse(self) == Some(r),
    {
        match self {
            OpCode::IntAdd => OpCode::IntSub,
            OpCode::IntSub => OpCode::IntAdd,
            OpCode::IntEqual => OpCode::IntNotEqual,
            OpCode::IntNotEqual => OpCode::IntEqual,
            OpCode::IntSLess => OpCode::IntSGreaterEqual,
            OpCode::IntSLessEqual => OpCode::IntSGreater,
            OpCode::IntLess => OpCode::IntGreaterEqual,
            OpCode::IntLessEqual => OpCode::IntGreater,
            OpCode::IntSGreaterEqual => OpCode::IntSLess,
            OpCode::IntSGreater => OpCode::IntSLessEqual,
            OpCode::IntGreaterEqual => OpCode::IntLess,
            _ => OpCode::IntLessEqual,
        }
    }

    /// Whether the operation counts as invertible: exactly the conditional operations.
    pub fn has_inverse(&self) -> (r: bool)
        ensures
            r == spec_is_conditional(*self),
    {
        self.is_conditional()
    }

    /// Whether the operation is a comparison or a boolean negation.
    pub fn is_conditional(&self) -> (r: bool)
        ensures
            r == spec_is_conditional(*self),
    {
        matches!(self,
            OpCode::BoolNegate | OpCode::IntEqual | OpCode::IntNotEqual | OpCode::IntLess
            | OpCode::IntSLess | OpCode::IntLessEqual | OpCode::IntSLessEqual | OpCode::IntGreater
            | OpCode::IntSGreater | OpCode::IntGreaterEqual | OpCode::IntSGreaterEqual)
    }

    /// The operations treated as commutative.
    pub fn is_commutative(&self) -> (r: bool)
        ensures
            r == matches!(*self, OpCode::IntAdd | OpCode::IntAnd | OpCode::IntOr | OpCode::IntSub
                | OpCode::IntMult | OpCode::IntDiv | OpCode::IntEqual | OpCode::IntNotEqual),
    {
        matches!(self, OpCode::IntAdd | OpCode::IntAnd | OpCode::IntOr | OpCode::IntSub
            | OpCode::IntMult | OpCode::IntDiv | OpCode::IntEqual | OpCode::IntNotEqual)
    }

    /// The operations treated as associative: only integer addition.
    pub fn is_associative(&self) -> (r: bool)
        ensures
            r == (*self == OpCode::IntAdd),
    {
        matches!(self, OpCode::IntAdd)
    }

    /// The operations that grow their first operand: addition and multiplication.
    pub fn increases(&self) -> (r: bool)
        ensures
            r == (*self == OpCode::IntAdd || *self == OpCode::IntMult),
    {
        matches!(self, OpCode::IntAdd | OpCode::IntMult)
    }

    /// The operations that shrink their first operand: subtraction and division.
    pub fn decreasing(&self) -> (r: bool)
        ensures
            r == (*self == OpCode::IntSub || *self == OpCode::IntDiv),
    {
        matches!(self, OpCode::IntSub | OpCode::IntDiv)
    }
}

/// Inverting twice gives back the operation.
pub proof fn lemma_inverse_involution(op: OpCode)
    requires
        spec_has_defined_inverse(op),
    ensures
        spec_has_defined_inverse(spec_inverse(op)->0),
        spec_inverse(spec_inverse(op)->0) == Some(op),
{
}

/// Every invertible operation counts as conditional or is an addition or subtraction; the one
/// conditional operation without an inverse is boolean negation.
pub proof fn lemma_inverse_domain(op: OpCode)
    ensures
        spec_has_defined_inverse(op) <==> (spec_is_conditional(op) && op != OpCode::BoolNegate)
            || op == OpCode::IntAdd || op == OpCode::IntSub,
{
}


/// The name under which a specification file's op template writes an operation; `None`
/// for the operations that have none.
pub open spec fn spec_opcode_name(op: OpCode) -> Option<Seq<char>> {
    match op {
        OpCode::Copy => Some("COPY"@),
        OpCode::Load => Some("LOAD"@),
        OpCode::Store => Some("STORE"@),
        OpCode::Branch => Some("BRANCH"@),
        OpCode::CBranch => Some("CBRANCH"@),
        OpCode::BranchInd => Some("BRANCHIND"@),
        OpCode::Call => Some("CALL"@),
        OpCode::CallInd => Some("CALLIND"@),
        OpCode::CallOther => Some("CALLOTHER"@),
        OpCode::Return => Some("RETURN"@),
        OpCode::IntEqual => Some("INT_EQUAL"@),
        OpCode::IntNotEqual => Some("INT_NOTEQUAL"@),
        OpCode::IntSLess => Some("INT_SLESS"@),
        OpCode::IntSLessEqual => Some("INT_SLESSEQUAL"@),
        OpCode::IntLess => Some("INT_LESS"@),
        OpCode::IntLessEqual => Some("INT_LESSEQUAL"@),
        OpCode::IntZext => Some("INT_ZEXT"@),
        OpCode::IntSext => Some("INT_SEXT"@),
        OpCode::IntAdd => Some("INT_ADD"@),
        OpCode::IntSub => Some("INT_SUB"@),
        OpCode::IntCarry => Some("INT_CARRY"@),
        OpCode::IntSCarry => Some("INT_SCARRY"@),
        OpCode::IntSBorrow => Some("INT_SBORROW"@),
        OpCode::Int2Comp => Some("INT_2COMP"@),
        OpCode::IntNegate => Some("INT_NEGATE"@),
        OpCode::IntXor => Some("INT_XOR"@),
        OpCode::IntAnd => Some("INT_AND"@),
        OpCode::IntOr => Some("INT_OR"@),
        OpCode::IntLeft => Some("INT_LEFT"@),
        OpCode::IntRight => Some("INT_RIGHT"@),
        OpCode::IntSRight => Some("INT_SRIGHT"@),
        OpCode::IntMult => Some("INT_MULT"@),
        OpCode::IntDiv => Some("INT_DIV"@),
        OpCode::IntSDiv => Some("INT_SDIV"@),
        OpCode::IntRem => Some("INT_REM"@),
        OpCode::IntSRem => Some("INT_SREM"@),
        OpCode::BoolNegate => Some("BOOL_NEGATE"@),
        OpCode::BoolXor => Some("BOOL_XOR"@),
        OpCode::BoolAnd => Some("BOOL_AND"@),
        OpCode::BoolOr => Some("BOOL_OR"@),
        OpCode::FloatEqual => Some("FLOAT_EQUAL"@),
        OpCode::FloatNotEqual => Some("FLOAT_NOTEQUAL"@),
        OpCode::FloatLess => Some("FLOAT_LESS"@),
        OpCode::FloatLessEqual => Some("FLOAT_LESSEQUAL"@),
        OpCode::FloatNan => Some("FLOAT_NAN"@),
        OpCode::FloatAdd => Some("FLOAT_ADD"@),
        OpCode::FloatDiv => Some("FLOAT_DIV"@),
        OpCode::FloatMult => Some("FLOAT_MULT"@),
        OpCode::FloatSub => Some("FLOAT_SUB"@),
        OpCode::FloatNeg => Some("FLOAT_NEG"@),
        OpCode::FloatAbs => Some("FLOAT_ABS"@),
        OpCode::FloatSqrt => Some("FLOAT_SQRT"@),
        OpCode::FloatInt2Float => Some("INT2FLOAT"@),
        OpCode::FloatFloat2Float => Some("FLOAT2FLOAT"@),
        OpCode::FloatTrunc => Some("TRUNC"@),
        OpCode::FloatCeil => Some("CEIL"@),
        OpCode::FloatFloor => Some("FLOOR"@),
        OpCode::FloatRound => Some("ROUND"@),
        OpCode::MultiEqual => Some("MULTIEQUAL"@),
        OpCode::Indidrect => Some("INDIRECT"@),
        OpCode::Piece => Some("PIECE"@),
        OpCode::SubPiece => Some("SUBPIECE"@),
        OpCode::Cast => Some("CAST"@),
        OpCode::PtrAdd => Some("PTRADD"@),
        OpCode::PtrSub => Some("PTRSUB"@),
        OpCode::SegmentOp => Some("SEGMENTOP"@),
        OpCode::CPoolRef => Some("CPOOLREF"@),
        OpCode::New => Some("NEW"@),
        OpCode::Insert => Some("INSERT"@),
        OpCode::Extract => Some("EXTRACT"@),
        OpCode::PopCount => Some("POPCOUNT"@),
        OpCode::Label => Some("LABEL"@),
        _ => None,
    }
}

/// Reading an operation name accepts only the names listed by `spec_opcode_name`, each for
/// its own operation, so two different names never give the same operation.
pub proof fn lemma_opcode_names_injective(s1: Seq<char>, s2: Seq<char>)
    ensures
        spec_opcode_of_name(s1) matches Some(op) ==> spec_opcode_name(op) == Some(s1),
        spec_opcode_of_name(s1) is Some && spec_opcode_of_name(s1) == spec_opcode_of_name(s2) ==> s1 == s2,
{
}

/// Every listed name is read as its operation.
#[verifier::rlimit(100)]
pub proof fn lemma_opcode_names_accepted(op: OpCode)
    requires
        spec_opcode_name(op) is Some,
    ensures
        spec_opcode_of_name(spec_opcode_name(op).unwrap()) == Some(op),
{
    reveal_strlit("COPY");
    assert("COPY"@.len() == 4 && "COPY"@[0] == 'C' && "COPY"@[1] == 'O' && "COPY"@[2] == 'P' && "COPY"@[3] == 'Y');
    reveal_strlit("LOAD");
    assert("LOAD"@.len() == 4 && "LOAD"@[0] == 'L' && "LOAD"@[1] == 'O' && "LOAD"@[2] == 'A' && "LOAD"@[3] == 'D');
    reveal_strlit("STORE");
    assert("STORE"@.len() == 5 && "STORE"@[0] == 'S' && "STORE"@[1] == 'T' && "STORE"@[2] == 'O' && "STORE"@[3] == 'R' && "STORE"@[4] == 'E');
    reveal_strlit("BRANCH");
    assert("BRANCH"@.len() == 6 && "BRANCH"@[0] == 'B' && "BRANCH"@[1] == 'R' && "BRANCH"@[2] == 'A' && "BRANCH"@[3] == 'N' && "BRANCH"@[4] == 'C' && "BRANCH"@[5] == 'H');
    reveal_strlit("CBRANCH");
    assert("CBRANCH"@.len() == 7 && "CBRANCH"@[0] == 'C' && "CBRANCH"@[1] == 'B' && "CBRANCH"@[2] == 'R' && "CBRANCH"@[3] == 'A' && "CBRANCH"@[4] == 'N' && "CBRANCH"@[5] == 'C' && "CBRANCH"@[6] == 'H');
    reveal_strlit("BRANCHIND");
    assert("BRANCHIND"@.len() == 9 && "BRANCHIND"@[0] == 'B' && "BRANCHIND"@[1] == 'R' && "BRANCHIND"@[2] == 'A' && "BRANCHIND"@[3] == 'N' && "BRANCHIND"@[4] == 'C' && "BRANCHIND"@[5] == 'H' && "BRANCHIND"@[6] == 'I' && "BRANCHIND"@[7] == 'N' && "BRANCHIND"@[8] == 'D');
    reveal_strlit("CALL");
    assert("CALL"@.len() == 4 && "CALL"@[0] == 'C' && "CALL"@[1] == 'A' && "CALL"@[2] == 'L' && "CALL"@[3] == 'L');
    reveal_strlit("CALLIND");
    assert("CALLIND"@.len() == 7 && "CALLIND"@[0] == 'C' && "CALLIND"@[1] == 'A' && "CALLIND"@[2] == 'L' && "CALLIND"@[3] == 'L' && "CALLIND"@[4] == 'I' && "CALLIND"@[5] == 'N' && "CALLIND"@[6] == 'D');
    reveal_strlit("CALLOTHER");
    assert("CALLOTHER"@.len() == 9 && "CALLOTHER"@[0] == 'C' && "CALLOTHER"@[1] == 'A' && "CALLOTHER"@[2] == 'L' && "CALLOTHER"@[3] == 'L' && "CALLOTHER"@[4] == 'O' && "CALLOTHER"@[5] == 'T' && "CALLOTHER"@[6] == 'H' && "CALLOTHER"@[7] == 'E' && "CALLOTHER"@[8] == 'R');
    reveal_strlit("RETURN");
    assert("RETURN"@.len() == 6 && "RETURN"@[0] == 'R' && "RETURN"@[1] == 'E' && "RETURN"@[2] == 'T' && "RETURN"@[3] == 'U' && "RETURN"@[4] == 'R' && "RETURN"@[5] == 'N');
    reveal_strlit("INT_EQUAL");
    assert("INT_EQUAL"@.len() == 9 && "INT_EQUAL"@[0] == 'I' && "INT_EQUAL"@[1] == 'N' && "INT_EQUAL"@[2] == 'T' && "INT_EQUAL"@[3] == '_' && "INT_EQUAL"@[4] == 'E' && "INT_EQUAL"@[5] == 'Q' && "INT_EQUAL"@[6] == 'U' && "INT_EQUAL"@[7] == 'A' && "INT_EQUAL"@[8] == 'L');
    reveal_strlit("INT_NOTEQUAL");
    assert("INT_NOTEQUAL"@.len() == 12 && "INT_NOTEQUAL"@[0] == 'I' && "INT_NOTEQUAL"@[1] == 'N' && "INT_NOTEQUAL"@[2] == 'T' && "INT_NOTEQUAL"@[3] == '_' && "INT_NOTEQUAL"@[4] == 'N' && "INT_NOTEQUAL"@[5] == 'O' && "INT_NOTEQUAL"@[6] == 'T' && "INT_NOTEQUAL"@[7] == 'E' && "INT_NOTEQUAL"@[8] == 'Q' && "INT_NOTEQUAL"@[9] == 'U' && "INT_NOTEQUAL"@[10] == 'A' && "INT_NOTEQUAL"@[11] == 'L');
    reveal_strlit("INT_SLESS");
    assert("INT_SLESS"@.len() == 9 && "INT_SLESS"@[0] == 'I' && "INT_SLESS"@[1] == 'N' && "INT_SLESS"@[2] == 'T' && "INT_SLESS"@[3] == '_' && "INT_SLESS"@[4] == 'S' && "INT_SLESS"@[5] == 'L' && "INT_SLESS"@[6] == 'E' && "INT_SLESS"@[7] == 'S' && "INT_SLESS"@[8] == 'S');
    reveal_strlit("INT_SLESSEQUAL");
    assert("INT_SLESSEQUAL"@.len() == 14 && "INT_SLESSEQUAL"@[0] == 'I' && "INT_SLESSEQUAL"@[1] == 'N' && "INT_SLESSEQUAL"@[2] == 'T' && "INT_SLESSEQUAL"@[3] == '_' && "INT_SLESSEQUAL"@[4] == 'S' && "INT_SLESSEQUAL"@[5] == 'L' && "INT_SLESSEQUAL"@[6] == 'E' && "INT_SLESSEQUAL"@[7] == 'S' && "INT_SLESSEQUAL"@[8] == 'S' && "INT_SLESSEQUAL"@[9] == 'E' && "INT_SLESSEQUAL"@[10] == 'Q' && "INT_SLESSEQUAL"@[11] == 'U' && "INT_SLESSEQUAL"@[12] == 'A' && "INT_SLESSEQUAL"@[13] == 'L');
    reveal_strlit("INT_LESS");
    assert("INT_LESS"@.len() == 8 && "INT_LESS"@[0] == 'I' && "INT_LESS"@[1] == 'N' && "INT_LESS"@[2] == 'T' && "INT_LESS"@[3] == '_' && "INT_LESS"@[4] == 'L' && "INT_LESS"@[5] == 'E' && "INT_LESS"@[6] == 'S' && "INT_LESS"@[7] == 'S');
    reveal_strlit("INT_LESSEQUAL");
    assert("INT_LESSEQUAL"@.len() == 13 && "INT_LESSEQUAL"@[0] == 'I' && "INT_LESSEQUAL"@[1] == 'N' && "INT_LESSEQUAL"@[2] == 'T' && "INT_LESSEQUAL"@[3] == '_' && "INT_LESSEQUAL"@[4] == 'L' && "INT_LESSEQUAL"@[5] == 'E' && "INT_LESSEQUAL"@[6] == 'S' && "INT_LESSEQUAL"@[7] == 'S' && "INT_LESSEQUAL"@[8] == 'E' && "INT_LESSEQUAL"@[9] == 'Q' && "INT_LESSEQUAL"@[10] == 'U' && "INT_LESSEQUAL"@[11] == 'A' && "INT_LESSEQUAL"@[12] == 'L');
    reveal_strlit("INT_ZEXT");
    assert("INT_ZEXT"@.len() == 8 && "INT_ZEXT"@[0] == 'I' && "INT_ZEXT"@[1] == 'N' && "INT_ZEXT"@[2] == 'T' && "INT_ZEXT"@[3] == '_' && "INT_ZEXT"@[4] == 'Z' && "INT_ZEXT"@[5] == 'E' && "INT_ZEXT"@[6] == 'X' && "INT_ZEXT"@[7] == 'T');
    reveal_strlit("INT_SEXT");
    assert("INT_SEXT"@.len() == 8 && "INT_SEXT"@[0] == 'I' && "INT_SEXT"@[1] == 'N' && "INT_SEXT"@[2] == 'T' && "INT_SEXT"@[3] == '_' && "INT_SEXT"@[4] == 'S' && "INT_SEXT"@[5] == 'E' && "INT_SEXT"@[6] == 'X' && "INT_SEXT"@[7] == 'T');
    reveal_strlit("INT_ADD");
    assert("INT_ADD"@.len() == 7 && "INT_ADD"@[0] == 'I' && "INT_ADD"@[1] == 'N' && "INT_ADD"@[2] == 'T' && "INT_ADD"@[3] == '_' && "INT_ADD"@[4] == 'A' && "INT_ADD"@[5] == 'D' && "INT_ADD"@[6] == 'D');
    reveal_strlit("INT_SUB");
    assert("INT_SUB"@.len() == 7 && "INT_SUB"@[0] == 'I' && "INT_SUB"@[1] == 'N' && "INT_SUB"@[2] == 'T' && "INT_SUB"@[3] == '_' && "INT_SUB"@[4] == 'S' && "INT_SUB"@[5] == 'U' && "INT_SUB"@[6] == 'B');
    reveal_strlit("INT_CARRY");
    assert("INT_CARRY"@.len() == 9 && "INT_CARRY"@[0] == 'I' && "INT_CARRY"@[1] == 'N' && "INT_CARRY"@[2] == 'T' && "INT_CARRY"@[3] == '_' && "INT_CARRY"@[4] == 'C' && "INT_CARRY"@[5] == 'A' && "INT_CARRY"@[6] == 'R' && "INT_CARRY"@[7] == 'R' && "INT_CARRY"@[8] == 'Y');
    reveal_strlit("INT_SCARRY");
    assert("INT_SCARRY"@.len() == 10 && "INT_SCARRY"@[0] == 'I' && "INT_SCARRY"@[1] == 'N' && "INT_SCARRY"@[2] == 'T' && "INT_SCARRY"@[3] == '_' && "INT_SCARRY"@[4] == 'S' && "INT_SCARRY"@[5] == 'C' && "INT_SCARRY"@[6] == 'A' && "INT_SCARRY"@[7] == 'R' && "INT_SCARRY"@[8] == 'R' && "INT_SCARRY"@[9] == 'Y');
    reveal_strlit("INT_SBORROW");
    assert("INT_SBORROW"@.len() == 11 && "INT_SBORROW"@[0] == 'I' && "INT_SBORROW"@[1] == 'N' && "INT_SBORROW"@[2] == 'T' && "INT_SBORROW"@[3] == '_' && "INT_SBORROW"@[4] == 'S' && "INT_SBORROW"@[5] == 'B' && "INT_SBORROW"@[6] == 'O' && "INT_SBORROW"@[7] == 'R' && "INT_SBORROW"@[8] == 'R' && "INT_SBORROW"@[9] == 'O' && "INT_SBORROW"@[10] == 'W');
    reveal_strlit("INT_2COMP");
    assert("INT_2COMP"@.len() == 9 && "INT_2COMP"@[0] == 'I' && "INT_2COMP"@[1] == 'N' && "INT_2COMP"@[2] == 'T' && "INT_2COMP"@[3] == '_' && "INT_2COMP"@[4] == '2' && "INT_2COMP"@[5] == 'C' && "INT_2COMP"@[6] == 'O' && "INT_2COMP"@[7] == 'M' && "INT_2COMP"@[8] == 'P');
    reveal_strlit("INT_NEGATE");
    assert("INT_NEGATE"@.len() == 10 && "INT_NEGATE"@[0] == 'I' && "INT_NEGATE"@[1] == 'N' && "INT_NEGATE"@[2] == 'T' && "INT_NEGATE"@[3] == '_' && "INT_NEGATE"@[4] == 'N' && "INT_NEGATE"@[5] == 'E' && "INT_NEGATE"@[6] == 'G' && "INT_NEGATE"@[7] == 'A' && "INT_NEGATE"@[8] == 'T' && "INT_NEGATE"@[9] == 'E');
    reveal_strlit("INT_XOR");
    assert("INT_XOR"@.len() == 7 && "INT_XOR"@[0] == 'I' && "INT_XOR"@[1] == 'N' && "INT_XOR"@[2] == 'T' && "INT_XOR"@[3] == '_' && "INT_XOR"@[4] == 'X' && "INT_XOR"@[5] == 'O' && "INT_XOR"@[6] == 'R');
    reveal_strlit("INT_AND");
    assert("INT_AND"@.len() == 7 && "INT_AND"@[0] == 'I' && "INT_AND"@[1] == 'N' && "INT_AND"@[2] == 'T' && "INT_AND"@[3] == '_' && "INT_AND"@[4] == 'A' && "INT_AND"@[5] == 'N' && "INT_AND"@[6] == 'D');
    reveal_strlit("INT_OR");
    assert("INT_OR"@.len() == 6 && "INT_OR"@[0] == 'I' && "INT_OR"@[1] == 'N' && "INT_OR"@[2] == 'T' && "INT_OR"@[3] == '_' && "INT_OR"@[4] == 'O' && "INT_OR"@[5] == 'R');
    reveal_strlit("INT_LEFT");
    assert("INT_LEFT"@.len() == 8 && "INT_LEFT"@[0] == 'I' && "INT_LEFT"@[1] == 'N' && "INT_LEFT"@[2] == 'T' && "INT_LEFT"@[3] == '_' && "INT_LEFT"@[4] == 'L' && "INT_LEFT"@[5] == 'E' && "INT_LEFT"@[6] == 'F' && "INT_LEFT"@[7] == 'T');
    reveal_strlit("INT_RIGHT");
    assert("INT_RIGHT"@.len() == 9 && "INT_RIGHT"@[0] == 'I' && "INT_RIGHT"@[1] == 'N' && "INT_RIGHT"@[2] == 'T' && "INT_RIGHT"@[3] == '_' && "INT_RIGHT"@[4] == 'R' && "INT_RIGHT"@[5] == 'I' && "INT_RIGHT"@[6] == 'G' && "INT_RIGHT"@[7] == 'H' && "INT_RIGHT"@[8] == 'T');
    reveal_strlit("INT_SRIGHT");
    assert("INT_SRIGHT"@.len() == 10 && "INT_SRIGHT"@[0] == 'I' && "INT_SRIGHT"@[1] == 'N' && "INT_SRIGHT"@[2] == 'T' && "INT_SRIGHT"@[3] == '_' && "INT_SRIGHT"@[4] == 'S' && "INT_SRIGHT"@[5] == 'R' && "INT_SRIGHT"@[6] == 'I' && "INT_SRIGHT"@[7] == 'G' && "INT_SRIGHT"@[8] == 'H' && "INT_SRIGHT"@[9] == 'T');
    reveal_strlit("INT_MULT");
    assert("INT_MULT"@.len() == 8 && "INT_MULT"@[0] == 'I' && "INT_MULT"@[1] == 'N' && "INT_MULT"@[2] == 'T' && "INT_MULT"@[3] == '_' && "INT_MULT"@[4] == 'M' && "INT_MULT"@[5] == 'U' && "INT_MULT"@[6] == 'L' && "INT_MULT"@[7] == 'T');
    reveal_strlit("INT_DIV");
    assert("INT_DIV"@.len() == 7 && "INT_DIV"@[0] == 'I' && "INT_DIV"@[1] == 'N' && "INT_DIV"@[2] == 'T' && "INT_DIV"@[3] == '_' && "INT_DIV"@[4] == 'D' && "INT_DIV"@[5] == 'I' && "INT_DIV"@[6] == 'V');
    reveal_strlit("INT_SDIV");
    assert("INT_SDIV"@.len() == 8 && "INT_SDIV"@[0] == 'I' && "INT_SDIV"@[1] == 'N' && "INT_SDIV"@[2] == 'T' && "INT_SDIV"@[3] == '_' && "INT_SDIV"@[4] == 'S' && "INT_SDIV"@[5] == 'D' && "INT_SDIV"@[6] == 'I' && "INT_SDIV"@[7] == 'V');
    reveal_strlit("INT_REM");
    assert("INT_REM"@.len() == 7 && "INT_REM"@[0] == 'I' && "INT_REM"@[1] == 'N' && "INT_REM"@[2] == 'T' && "INT_REM"@[3] == '_' && "INT_REM"@[4] == 'R' && "INT_REM"@[5] == 'E' && "INT_REM"@[6] == 'M');
    reveal_strlit("INT_SREM");
    assert("INT_SREM"@.len() == 8 && "INT_SREM"@[0] == 'I' && "INT_SREM"@[1] == 'N' && "INT_SREM"@[2] == 'T' && "INT_SREM"@[3] == '_' && "INT_SREM"@[4] == 'S' && "INT_SREM"@[5] == 'R' && "INT_SREM"@[6] == 'E' && "INT_SREM"@[7] == 'M');
    reveal_strlit("BOOL_NEGATE");
    assert("BOOL_NEGATE"@.len() == 11 && "BOOL_NEGATE"@[0] == 'B' && "BOOL_NEGATE"@[1] == 'O' && "BOOL_NEGATE"@[2] == 'O' && "BOOL_NEGATE"@[3] == 'L' && "BOOL_NEGATE"@[4] == '_' && "BOOL_NEGATE"@[5] == 'N' && "BOOL_NEGATE"@[6] == 'E' && "BOOL_NEGATE"@[7] == 'G' && "BOOL_NEGATE"@[8] == 'A' && "BOOL_NEGATE"@[9] == 'T' && "BOOL_NEGATE"@[10] == 'E');
    reveal_strlit("BOOL_XOR");
    assert("BOOL_XOR"@.len() == 8 && "BOOL_XOR"@[0] == 'B' && "BOOL_XOR"@[1] == 'O' && "BOOL_XOR"@[2] == 'O' && "BOOL_XOR"@[3] == 'L' && "BOOL_XOR"@[4] == '_' && "BOOL_XOR"@[5] == 'X' && "BOOL_XOR"@[6] == 'O' && "BOOL_XOR"@[7] == 'R');
    reveal_strlit("BOOL_AND");
    assert("BOOL_AND"@.len() == 8 && "BOOL_AND"@[0] == 'B' && "BOOL_AND"@[1] == 'O' && "BOOL_AND"@[2] == 'O' && "BOOL_AND"@[3] == 'L' && "BOOL_AND"@[4] == '_' && "BOOL_AND"@[5] == 'A' && "BOOL_AND"@[6] == 'N' && "BOOL_AND"@[7] == 'D');
    reveal_strlit("BOOL_OR");
    assert("BOOL_OR"@.len() == 7 && "BOOL_OR"@[0] == 'B' && "BOOL_OR"@[1] == 'O' && "BOOL_OR"@[2] == 'O' && "BOOL_OR"@[3] == 'L' && "BOOL_OR"@[4] == '_' && "BOOL_OR"@[5] == 'O' && "BOOL_OR"@[6] == 'R');
    reveal_strlit("FLOAT_EQUAL");
    assert("FLOAT_EQUAL"@.len() == 11 && "FLOAT_EQUAL"@[0] == 'F' && "FLOAT_EQUAL"@[1] == 'L' && "FLOAT_EQUAL"@[2] == 'O' && "FLOAT_EQUAL"@[3] == 'A' && "FLOAT_EQUAL"@[4] == 'T' && "FLOAT_EQUAL"@[5] == '_' && "FLOAT_EQUAL"@[6] == 'E' && "FLOAT_EQUAL"@[7] == 'Q' && "FLOAT_EQUAL"@[8] == 'U' && "FLOAT_EQUAL"@[9] == 'A' && "FLOAT_EQUAL"@[10] == 'L');
    reveal_strlit("FLOAT_NOTEQUAL");
    assert("FLOAT_NOTEQUAL"@.len() == 14 && "FLOAT_NOTEQUAL"@[0] == 'F' && "FLOAT_NOTEQUAL"@[1] == 'L' && "FLOAT_NOTEQUAL"@[2] == 'O' && "FLOAT_NOTEQUAL"@[3] == 'A' && "FLOAT_NOTEQUAL"@[4] == 'T' && "FLOAT_NOTEQUAL"@[5] == '_' && "FLOAT_NOTEQUAL"@[6] == 'N' && "FLOAT_NOTEQUAL"@[7] == 'O' && "FLOAT_NOTEQUAL"@[8] == 'T' && "FLOAT_NOTEQUAL"@[9] == 'E' && "FLOAT_NOTEQUAL"@[10] == 'Q' && "FLOAT_NOTEQUAL"@[11] == 'U' && "FLOAT_NOTEQUAL"@[12] == 'A' && "FLOAT_NOTEQUAL"@[13] == 'L');
    reveal_strlit("FLOAT_LESS");
    assert("FLOAT_LESS"@.len() == 10 && "FLOAT_LESS"@[0] == 'F' && "FLOAT_LESS"@[1] == 'L' && "FLOAT_LESS"@[2] == 'O' && "FLOAT_LESS"@[3] == 'A' && "FLOAT_LESS"@[4] == 'T' && "FLOAT_LESS"@[5] == '_' && "FLOAT_LESS"@[6] == 'L' && "FLOAT_LESS"@[7] == 'E' && "FLOAT_LESS"@[8] == 'S' && "FLOAT_LESS"@[9] == 'S');
    reveal_strlit("FLOAT_LESSEQUAL");
    assert("FLOAT_LESSEQUAL"@.len() == 15 && "FLOAT_LESSEQUAL"@[0] == 'F' && "FLOAT_LESSEQUAL"@[1] == 'L' && "FLOAT_LESSEQUAL"@[2] == 'O' && "FLOAT_LESSEQUAL"@[3] == 'A' && "FLOAT_LESSEQUAL"@[4] == 'T' && "FLOAT_LESSEQUAL"@[5] == '_' && "FLOAT_LESSEQUAL"@[6] == 'L' && "FLOAT_LESSEQUAL"@[7] == 'E' && "FLOAT_LESSEQUAL"@[8] == 'S' && "FLOAT_LESSEQUAL"@[9] == 'S' && "FLOAT_LESSEQUAL"@[10] == 'E' && "FLOAT_LESSEQUAL"@[11] == 'Q' && "FLOAT_LESSEQUAL"@[12] == 'U' && "FLOAT_LESSEQUAL"@[13] == 'A' && "FLOAT_LESSEQUAL"@[14] == 'L');
    reveal_strlit("FLOAT_NAN");
    assert("FLOAT_NAN"@.len() == 9 && "FLOAT_NAN"@[0] == 'F' && "FLOAT_NAN"@[1] == 'L' && "FLOAT_NAN"@[2] == 'O' && "FLOAT_NAN"@[3] == 'A' && "FLOAT_NAN"@[4] == 'T' && "FLOAT_NAN"@[5] == '_' && "FLOAT_NAN"@[6] == 'N' && "FLOAT_NAN"@[7] == 'A' && "FLOAT_NAN"@[8] == 'N');
    reveal_strlit("FLOAT_ADD");
    assert("FLOAT_ADD"@.len() == 9 && "FLOAT_ADD"@[0] == 'F' && "FLOAT_ADD"@[1] == 'L' && "FLOAT_ADD"@[2] == 'O' && "FLOAT_ADD"@[3] == 'A' && "FLOAT_ADD"@[4] == 'T' && "FLOAT_ADD"@[5] == '_' && "FLOAT_ADD"@[6] == 'A' && "FLOAT_ADD"@[7] == 'D' && "FLOAT_ADD"@[8] == 'D');
    reveal_strlit("FLOAT_DIV");
    assert("FLOAT_DIV"@.len() == 9 && "FLOAT_DIV"@[0] == 'F' && "FLOAT_DIV"@[1] == 'L' && "FLOAT_DIV"@[2] == 'O' && "FLOAT_DIV"@[3] == 'A' && "FLOAT_DIV"@[4] == 'T' && "FLOAT_DIV"@[5] == '_' && "FLOAT_DIV"@[6] == 'D' && "FLOAT_DIV"@[7] == 'I' && "FLOAT_DIV"@[8] == 'V');
    reveal_strlit("FLOAT_MULT");
    assert("FLOAT_MULT"@.len() == 10 && "FLOAT_MULT"@[0] == 'F' && "FLOAT_MULT"@[1] == 'L' && "FLOAT_MULT"@[2] == 'O' && "FLOAT_MULT"@[3] == 'A' && "FLOAT_MULT"@[4] == 'T' && "FLOAT_MULT"@[5] == '_' && "FLOAT_MULT"@[6] == 'M' && "FLOAT_MULT"@[7] == 'U' && "FLOAT_MULT"@[8] == 'L' && "FLOAT_MULT"@[9] == 'T');
    reveal_strlit("FLOAT_SUB");
    assert("FLOAT_SUB"@.len() == 9 && "FLOAT_SUB"@[0] == 'F' && "FLOAT_SUB"@[1] == 'L' && "FLOAT_SUB"@[2] == 'O' && "FLOAT_SUB"@[3] == 'A' && "FLOAT_SUB"@[4] == 'T' && "FLOAT_SUB"@[5] == '_' && "FLOAT_SUB"@[6] == 'S' && "FLOAT_SUB"@[7] == 'U' && "FLOAT_SUB"@[8] == 'B');
    reveal_strlit("FLOAT_NEG");
    assert("FLOAT_NEG"@.len() == 9 && "FLOAT_NEG"@[0] == 'F' && "FLOAT_NEG"@[1] == 'L' && "FLOAT_NEG"@[2] == 'O' && "FLOAT_NEG"@[3] == 'A' && "FLOAT_NEG"@[4] == 'T' && "FLOAT_NEG"@[5] == '_' && "FLOAT_NEG"@[6] == 'N' && "FLOAT_NEG"@[7] == 'E' && "FLOAT_NEG"@[8] == 'G');
    reveal_strlit("FLOAT_ABS");
    assert("FLOAT_ABS"@.len() == 9 && "FLOAT_ABS"@[0] == 'F' && "FLOAT_ABS"@[1] == 'L' && "FLOAT_ABS"@[2] == 'O' && "FLOAT_ABS"@[3] == 'A' && "FLOAT_ABS"@[4] == 'T' && "FLOAT_ABS"@[5] == '_' && "FLOAT_ABS"@[6] == 'A' && "FLOAT_ABS"@[7] == 'B' && "FLOAT_ABS"@[8] == 'S');
    reveal_strlit("FLOAT_SQRT");
    assert("FLOAT_SQRT"@.len() == 10 && "FLOAT_SQRT"@[0] == 'F' && "FLOAT_SQRT"@[1] == 'L' && "FLOAT_SQRT"@[2] == 'O' && "FLOAT_SQRT"@[3] == 'A' && "FLOAT_SQRT"@[4] == 'T' && "FLOAT_SQRT"@[5] == '_' && "FLOAT_SQRT"@[6] == 'S' && "FLOAT_SQRT"@[7] == 'Q' && "FLOAT_SQRT"@[8] == 'R' && "FLOAT_SQRT"@[9] == 'T');
    reveal_strlit("INT2FLOAT");
    assert("INT2FLOAT"@.len() == 9 && "INT2FLOAT"@[0] == 'I' && "INT2FLOAT"@[1] == 'N' && "INT2FLOAT"@[2] == 'T' && "INT2FLOAT"@[3] == '2' && "INT2FLOAT"@[4] == 'F' && "INT2FLOAT"@[5] == 'L' && "INT2FLOAT"@[6] == 'O' && "INT2FLOAT"@[7] == 'A' && "INT2FLOAT"@[8] == 'T');
    reveal_strlit("FLOAT2FLOAT");
    assert("FLOAT2FLOAT"@.len() == 11 && "FLOAT2FLOAT"@[0] == 'F' && "FLOAT2FLOAT"@[1] == 'L' && "FLOAT2FLOAT"@[2] == 'O' && "FLOAT2FLOAT"@[3] == 'A' && "FLOAT2FLOAT"@[4] == 'T' && "FLOAT2FLOAT"@[5] == '2' && "FLOAT2FLOAT"@[6] == 'F' && "FLOAT2FLOAT"@[7] == 'L' && "FLOAT2FLOAT"@[8] == 'O' && "FLOAT2FLOAT"@[9] == 'A' && "FLOAT2FLOAT"@[10] == 'T');
    reveal_strlit("TRUNC");
    assert("TRUNC"@.len() == 5 && "TRUNC"@[0] == 'T' && "TRUNC"@[1] == 'R' && "TRUNC"@[2] == 'U' && "TRUNC"@[3] == 'N' && "TRUNC"@[4] == 'C');
    reveal_strlit("CEIL");
    assert("CEIL"@.len() == 4 && "CEIL"@[0] == 'C' && "CEIL"@[1] == 'E' && "CEIL"@[2] == 'I' && "CEIL"@[3] == 'L');
    reveal_strlit("FLOOR");
    assert("FLOOR"@.len() == 5 && "FLOOR"@[0] == 'F' && "FLOOR"@[1] == 'L' && "FLOOR"@[2] == 'O' && "FLOOR"@[3] == 'O' && "FLOOR"@[4] == 'R');
    reveal_strlit("ROUND");
    assert("ROUND"@.len() == 5 && "ROUND"@[0] == 'R' && "ROUND"@[1] == 'O' && "ROUND"@[2] == 'U' && "ROUND"@[3] == 'N' && "ROUND"@[4] == 'D');
    reveal_strlit("MULTIEQUAL");
    assert("MULTIEQUAL"@.len() == 10 && "MULTIEQUAL"@[0] == 'M' && "MULTIEQUAL"@[1] == 'U' && "MULTIEQUAL"@[2] == 'L' && "MULTIEQUAL"@[3] == 'T' && "MULTIEQUAL"@[4] == 'I' && "MULTIEQUAL"@[5] == 'E' && "MULTIEQUAL"@[6] == 'Q' && "MULTIEQUAL"@[7] == 'U' && "MULTIEQUAL"@[8] == 'A' && "MULTIEQUAL"@[9] == 'L');
    reveal_strlit("INDIRECT");
    assert("INDIRECT"@.len() == 8 && "INDIRECT"@[0] == 'I' && "INDIRECT"@[1] == 'N' && "INDIRECT"@[2] == 'D' && "INDIRECT"@[3] == 'I' && "INDIRECT"@[4] == 'R' && "INDIRECT"@[5] == 'E' && "INDIRECT"@[6] == 'C' && "INDIRECT"@[7] == 'T');
    reveal_strlit("PIECE");
    assert("PIECE"@.len() == 5 && "PIECE"@[0] == 'P' && "PIECE"@[1] == 'I' && "PIECE"@[2] == 'E' && "PIECE"@[3] == 'C' && "PIECE"@[4] == 'E');
    reveal_strlit("SUBPIECE");
    assert("SUBPIECE"@.len() == 8 && "SUBPIECE"@[0] == 'S' && "SUBPIECE"@[1] == 'U' && "SUBPIECE"@[2] == 'B' && "SUBPIECE"@[3] == 'P' && "SUBPIECE"@[4] == 'I' && "SUBPIECE"@[5] == 'E' && "SUBPIECE"@[6] == 'C' && "SUBPIECE"@[7] == 'E');
    reveal_strlit("CAST");
    assert("CAST"@.len() == 4 && "CAST"@[0] == 'C' && "CAST"@[1] == 'A' && "CAST"@[2] == 'S' && "CAST"@[3] == 'T');
    reveal_strlit("PTRADD");
    assert("PTRADD"@.len() == 6 && "PTRADD"@[0] == 'P' && "PTRADD"@[1] == 'T' && "PTRADD"@[2] == 'R' && "PTRADD"@[3] == 'A' && "PTRADD"@[4] == 'D' && "PTRADD"@[5] == 'D');
    reveal_strlit("PTRSUB");
    assert("PTRSUB"@.len() == 6 && "PTRSUB"@[0] == 'P' && "PTRSUB"@[1] == 'T' && "PTRSUB"@[2] == 'R' && "PTRSUB"@[3] == 'S' && "PTRSUB"@[4] == 'U' && "PTRSUB"@[5] == 'B');
    reveal_strlit("SEGMENTOP");
    assert("SEGMENTOP"@.len() == 9 && "SEGMENTOP"@[0] == 'S' && "SEGMENTOP"@[1] == 'E' && "SEGMENTOP"@[2] == 'G' && "SEGMENTOP"@[3] == 'M' && "SEGMENTOP"@[4] == 'E' && "SEGMENTOP"@[5] == 'N' && "SEGMENTOP"@[6] == 'T' && "SEGMENTOP"@[7] == 'O' && "SEGMENTOP"@[8] == 'P');
    reveal_strlit("CPOOLREF");
    assert("CPOOLREF"@.len() == 8 && "CPOOLREF"@[0] == 'C' && "CPOOLREF"@[1] == 'P' && "CPOOLREF"@[2] == 'O' && "CPOOLREF"@[3] == 'O' && "CPOOLREF"@[4] == 'L' && "CPOOLREF"@[5] == 'R' && "CPOOLREF"@[6] == 'E' && "CPOOLREF"@[7] == 'F');
    reveal_strlit("NEW");
    assert("NEW"@.len() == 3 && "NEW"@[0] == 'N' && "NEW"@[1] == 'E' && "NEW"@[2] == 'W');
    reveal_strlit("INSERT");
    assert("INSERT"@.len() == 6 && "INSERT"@[0] == 'I' && "INSERT"@[1] == 'N' && "INSERT"@[2] == 'S' && "INSERT"@[3] == 'E' && "INSERT"@[4] == 'R' && "INSERT"@[5] == 'T');
    reveal_strlit("EXTRACT");
    assert("EXTRACT"@.len() == 7 && "EXTRACT"@[0] == 'E' && "EXTRACT"@[1] == 'X' && "EXTRACT"@[2] == 'T' && "EXTRACT"@[3] == 'R' && "EXTRACT"@[4] == 'A' && "EXTRACT"@[5] == 'C' && "EXTRACT"@[6] == 'T');
    reveal_strlit("POPCOUNT");
    assert("POPCOUNT"@.len() == 8 && "POPCOUNT"@[0] == 'P' && "POPCOUNT"@[1] == 'O' && "POPCOUNT"@[2] == 'P' && "POPCOUNT"@[3] == 'C' && "POPCOUNT"@[4] == 'O' && "POPCOUNT"@[5] == 'U' && "POPCOUNT"@[6] == 'N' && "POPCOUNT"@[7] == 'T');
    reveal_strlit("LABEL");
    assert("LABEL"@.len() == 5 && "LABEL"@[0] == 'L' && "LABEL"@[1] == 'A' && "LABEL"@[2] == 'B' && "LABEL"@[3] == 'E' && "LABEL"@[4] == 'L');
}

} // verus!
