use rust_sleigh::sleigh::address::{Address, AddressSpace};
use rust_sleigh::sleigh::opcode::OpCode;
use rust_sleigh::sleigh::op::{fmt_inputs, parenthesize, Op, PcodeOp};
use rust_sleigh::sleigh::seqnum::SeqNum;
use rust_sleigh::sleigh::varnode::{Varnode, VarnodeMap};
use rust_sleigh::utils::{parse_int, try_parse_int};

fn reg(off: u64, size: u64) -> Varnode {
    Varnode { name: None, space: AddressSpace::Register, offset: off, size }
}

#[test]
fn parse_int_reads_hex_binary_and_decimal() {
    assert_eq!(parse_int("0x1f"), 31);
    assert_eq!(parse_int("0b101"), 5);
    assert_eq!(parse_int("42"), 42);
    assert_eq!(try_parse_int("0xzz"), None);
    assert_eq!(try_parse_int(""), None);
    assert_eq!(try_parse_int("18446744073709551616"), None);
    assert_eq!(try_parse_int("18446744073709551615"), Some(u64::MAX));
}

#[test]
fn opcode_names_round_trip() {
    assert_eq!(OpCode::from_str("INT_ADD"), Ok(OpCode::IntAdd));
    assert_eq!(OpCode::from_str("COPY"), Ok(OpCode::Copy));
    assert!(OpCode::from_str("NOT_AN_OP").is_err());
    let op = OpCode::from_str("INT_SLESS").unwrap();
    assert_eq!(op, OpCode::IntSLess);
    assert_eq!(op.to_string(), "IntSLess");
}

#[test]
fn opcode_inverse_is_an_involution() {
    for op in [OpCode::IntEqual, OpCode::IntNotEqual, OpCode::IntLess, OpCode::IntSLess] {
        assert!(op.has_inverse());
        assert_eq!(op.inverse().inverse(), op);
    }
    assert!(OpCode::IntEqual.is_conditional());
    assert!(!OpCode::IntAdd.is_conditional());
    assert!(OpCode::IntAdd.is_commutative());
    assert!(OpCode::IntSub.is_commutative());
    assert!(!OpCode::IntLeft.is_commutative());
    assert_eq!(OpCode::IntSLess.inverse(), OpCode::IntSGreaterEqual);
}

#[test]
fn addresses_and_seqnums() {
    let a = Address::ram(0x1000);
    assert_eq!(a.space, AddressSpace::Ram);
    assert_eq!(a.adding(0x10).offset, 0x1010);
    assert_eq!(a.to_string(), "0x1000");
    let s = SeqNum::at(0x1000);
    assert_eq!(s.next().uniq, 1);
    assert_eq!(s.next().prev(), s);
    assert_eq!(s.to_string(), "0x1000:0");
    assert_eq!(SeqNum::from_text("0x1000:3"), Some(SeqNum { pc: a, uniq: 3 }));
    assert_eq!(SeqNum::from_text("1000"), None);
    assert_eq!(AddressSpace::from_name("register"), Some(AddressSpace::Register));
    assert_eq!(AddressSpace::from_name("bogus"), None);
    assert_eq!(AddressSpace::Register.to_string(), "register");
}

#[test]
fn varnode_text() {
    assert_eq!(reg(0x10, 8).to_string(), "R10:8");
    assert_eq!(Varnode::constant(5, 8).to_string(), "\x1b[1;32m0x5\x1b[0m");
    let named = Varnode { name: Some("RAX".to_string()), ..reg(0, 8) };
    assert_eq!(named.to_string(), "\x1b[1;33mRAX\x1b[0m");
    let ram = Varnode { name: None, space: AddressSpace::Ram, offset: 0x400000, size: 8 };
    assert_eq!(ram.call_target_string(), "\x1b[1m\x1b[38;5;208mFUN_400000\x1b[0m");
    assert_eq!(Varnode::dummy().to_string(), "DUMMY");
}

#[test]
fn varnode_negate_and_sign() {
    let c = Varnode::constant(0xff, 1);
    assert!(c.is_negative());
    assert_eq!(c.negate().offset, 1);
    assert!(!Varnode::constant(0x7f, 1).is_negative());
    let c = Varnode::constant(0xfffffffffffffff8, 8);
    assert_eq!(c.negate().offset, 8);
}

#[test]
fn varnode_map_latest_entry_wins() {
    let mut m = VarnodeMap::new();
    m.insert(0, 8, "RAX".to_string());
    m.insert(0, 4, "EAX".to_string());
    m.insert(0, 8, "RAX2".to_string());
    assert_eq!(m.get(0, 8), Some("RAX2".to_string()));
    assert_eq!(m.get(0, 4), Some("EAX".to_string()));
    assert_eq!(m.get(8, 8), None);
    let t = reg(0, 8).truncate(0, 4, &m);
    assert_eq!(t.name, Some("EAX".to_string()));
    assert_eq!(t.size, 4);
}

#[test]
fn parenthesize_compound_operands() {
    assert_eq!(parenthesize("a + b".to_string()), "(a + b)");
    assert_eq!(parenthesize("(a + b)".to_string()), "(a + b)");
    assert_eq!(parenthesize("abc".to_string()), "abc");
    assert_eq!(parenthesize("*a b".to_string()), "(*a b)");
    assert_eq!(parenthesize("*(a b)".to_string()), "*(a b)");
}

#[test]
fn fmt_inputs_forms() {
    let r = reg(0x10, 8);
    let c = Varnode::constant(5, 8);
    assert_eq!(fmt_inputs(OpCode::IntAdd, &[r.clone(), c.clone()], 0), "R10:8 + \x1b[1;32m0x5\x1b[0m");
    assert_eq!(fmt_inputs(OpCode::IntNegate, &[r.clone()], 0), "~(R10:8)");
    assert_eq!(fmt_inputs(OpCode::IntZext, &[r.clone()], 0), "zext(R10:8)");
    assert_eq!(fmt_inputs(OpCode::Load, &[r.clone()], 0), "*R10:8");
    assert_eq!(fmt_inputs(OpCode::Deref, &[r.clone()], 4), "*R10:8:4");
    assert_eq!(fmt_inputs(OpCode::Store, &[r.clone(), c.clone()], 0), "*R10:8 = \x1b[1;32m0x5\x1b[0m");
    assert_eq!(fmt_inputs(OpCode::Return, &[r.clone(), c.clone()], 0), "\x1b[38;5;105mreturn\x1b[0m R10:8, \x1b[1;32m0x5\x1b[0m");
    assert_eq!(fmt_inputs(OpCode::SubPiece, &[r.clone(), c.clone()], 0), "(R10:8)(\x1b[1;32m0x5\x1b[0m)");
    let target = Varnode { name: None, space: AddressSpace::Ram, offset: 0x401000, size: 8 };
    assert_eq!(fmt_inputs(OpCode::Call, &[target, r.clone()], 0), "\x1b[1m\x1b[38;5;208mFUN_401000\x1b[0m(R10:8)");
    assert_eq!(fmt_inputs::<Varnode>(OpCode::MultiEqual, &[], 0), "phi()");
}

#[test]
fn op_to_string_and_kinds() {
    let out = reg(0x18, 8);
    let op: PcodeOp = Op::new(SeqNum::at(0), OpCode::IntAdd, vec![reg(0x10, 8), Varnode::constant(1, 8)], Some(out));
    assert_eq!(op.to_string(), "R18:8 = R10:8 + \x1b[1;32m0x1\x1b[0m");
    assert_eq!(op.display_text(), "R18:8 = R10:8 + \x1b[1;32m0x1\x1b[0m");
    assert!(!op.is_call());
    let br: PcodeOp = Op::new(SeqNum::at(0), OpCode::Branch, vec![Varnode { name: None, space: AddressSpace::Ram, offset: 0x2000, size: 8 }], None);
    assert!(br.branches());
    assert!(br.terminates());
    assert!(!br.has_fallthrough());
    assert_eq!(br.target(), Some(Address::ram(0x2000)));
    let cb: PcodeOp = Op::new(SeqNum::at(0), OpCode::CBranch, vec![Varnode::constant(2, 8), reg(0, 1)], None);
    assert!(cb.has_fallthrough());
    assert!(cb.is_conditional());
}

#[test]
fn printed_addresses_and_sequence_numbers_read_back() {
    let a = Address::ram(0x401a2f);
    assert_eq!(a.to_string(), "0x401a2f");
    assert_eq!(Address::from_hex_text(&a.to_string()), Some(a));
    let s = SeqNum { pc: a, uniq: -3 };
    assert_eq!(s.to_string(), "0x401a2f:-3");
    assert_eq!(SeqNum::from_text(&s.to_string()), Some(s));
    let t = SeqNum { pc: Address::ram(0), uniq: i32::MIN };
    assert_eq!(SeqNum::from_text(&t.to_string()), Some(t));
}

#[test]
fn plain_printer_forms() {
    let target = Varnode { name: None, space: AddressSpace::Ram, offset: 0x10, size: 8 };
    let arg = reg(0x10, 8);
    let call: PcodeOp = Op::new(SeqNum::at(0), OpCode::Call, vec![target, arg.clone()], None);
    assert_eq!(call.fmt_inputs(), "FUN_10(R10:8)");
    assert_eq!(call.to_string(), "FUN_10(R10:8)");
    let spaced = Varnode { name: Some("a b".to_string()), space: AddressSpace::Register, offset: 0, size: 8 };
    let add: PcodeOp = Op::new(SeqNum::at(0), OpCode::IntAdd, vec![spaced.clone(), arg.clone()], None);
    assert_eq!(add.to_string(), format!("{} + R10:8", spaced.to_string()));
    assert_eq!(add.display_text(), format!("({}) + R10:8", spaced.to_string()));
    let load: PcodeOp = Op::new(SeqNum::at(0), OpCode::Load, vec![Varnode::constant(0, 8), arg.clone()], Some(reg(0x18, 8)));
    assert_eq!(load.to_string(), "R18:8 = *R10:8");
    let conv: PcodeOp = Op::new(SeqNum::at(0), OpCode::FloatInt2Float, vec![arg.clone()], None);
    assert_eq!(conv.to_string(), "int2float(R10:8)");
    let ret: PcodeOp = Op::new(SeqNum::at(0), OpCode::Return, vec![], None);
    assert_eq!(ret.to_string(), "return ");
    let unknown: PcodeOp = Op::new(SeqNum::at(0), OpCode::IntSLessEqual, vec![arg.clone(), arg.clone()], None);
    assert!(unknown.try_to_string().is_none());
    assert!(unknown.try_display_text().is_some());
}

#[test]
fn opcode_names_read_back() {
    use_names();
}

fn use_names() {
    assert_eq!(OpCode::from_str("INT_ADD"), Ok(OpCode::IntAdd));
    assert_eq!(OpCode::from_str("LABEL"), Ok(OpCode::Label));
    assert_eq!(OpCode::from_str("POPCOUNT"), Ok(OpCode::PopCount));
    assert!(OpCode::from_str("int_add").is_err());
    assert!(OpCode::from_str("IntAdd").is_err());
    assert!(OpCode::from_str("BUILD").is_err());
    assert!(OpCode::from_str("").is_err());
    let g1 = rust_sleigh::ghidra::opcode::OpCode::INT_SLESSEQUAL;
    let g2 = rust_sleigh::ghidra::opcode::OpCode::FLOAT_INT2FLOAT;
    assert_eq!(g1.to_str(), "INT_SLESSEQUAL");
    assert_eq!(g2.to_str(), "FLOAT_INT2FLOAT");
    assert_ne!(g1.to_str(), g2.to_str());
}
