use std::sync::Arc;
use rust_sleigh::ghidra::ssa::{VarnodeMap, VarnodeUses};
use rust_sleigh::ghidra::types::{Address, AddressSpace, PcodeType, SeqNum, SsaVarnode, Varnode};
use rust_sleigh::ghidra::compound::{GenericCompoundVarnode, VarnodeComps};
use rust_sleigh::ghidra::pcode::GenericPcodeOp;
use rust_sleigh::ghidra::opcode::OpCode;

fn reg(off: u64, size: u32) -> Varnode {
    Varnode { name: Some(format!("r{}", off)), space: AddressSpace::Register, offset: off, size }
}

#[test]
fn versions_count_up_and_unwind() {
    let mut made = VarnodeMap::new();
    let mut stack = VarnodeMap::new();
    let a = reg(0, 8);
    let b = reg(8, 8);
    let a0 = SsaVarnode::new(&a, &mut made, &mut stack);
    assert_eq!(a0.version, 0);
    assert!(!a.is_live(&stack));
    let a1 = SsaVarnode::new(&a, &mut made, &mut stack);
    assert_eq!(a1.version, 1);
    assert!(a.is_live(&stack));
    assert_eq!(a.get_top(&mut made, &mut stack).version, 1);
    let b0 = b.get_top(&mut made, &mut stack);
    assert_eq!(b0.version, 0);
    assert_eq!(made.get(&a).unwrap().len(), 2);
    a.unwind_version(&mut stack);
    assert_eq!(a.get_top(&mut made, &mut stack).version, 0);
    assert!(!a.is_live(&stack));
    a.unwind_version(&mut stack);
    assert_eq!(stack.get(&a).unwrap().len(), 0);
    // with nothing in scope, a fresh version is numbered after the highest made
    let a2 = a.get_top(&mut made, &mut stack);
    assert_eq!(a2.version, 2);
    assert_eq!(made.get(&a).unwrap().len(), 3);
    let c = Varnode { name: None, space: AddressSpace::Const, offset: 5, size: 4 };
    assert!(c.is_live(&stack));
    assert_eq!(c.get_top(&mut made, &mut stack).version, 0);
    assert!(made.get(&c).is_none());
}

#[test]
fn dead_versions_have_no_uses() {
    let v = SsaVarnode { inner: reg(0, 8), version: 3 };
    let w = SsaVarnode { inner: reg(0, 8), version: 4 };
    let u = SsaVarnode { inner: reg(16, 8), version: 0 };
    let uses = VarnodeUses { entries: vec![(v.clone(), vec![(2, vec![0])]), (w.clone(), vec![])] };
    assert!(!v.is_dead(&uses));
    assert!(w.is_dead(&uses));
    assert!(u.is_dead(&uses));
}

fn op_with_output(regs: &Arc<Vec<Vec<Varnode>>>, out: Option<Varnode>) -> GenericPcodeOp<GenericCompoundVarnode<Varnode>> {
    GenericPcodeOp {
        kind: PcodeType::Default,
        seq: SeqNum { pc: Address { space: AddressSpace::Ram, offset: 0x1000 }, uniq: 2, order: 7 },
        opcode: OpCode::COPY,
        inputs: vec![GenericCompoundVarnode::new(reg(8, 8), regs.clone())],
        output: out.map(|o| GenericCompoundVarnode::new(o, regs.clone())),
        killed: vec![],
        used: vec![],
    }
}

#[test]
fn ops_take_new_and_unioned_outputs() {
    let regs: Arc<Vec<Vec<Varnode>>> = Arc::new(vec![vec![]; 16]);
    let tmp = |size: u32| Varnode { name: None, space: AddressSpace::Unique, offset: 0, size };
    let op = op_with_output(&regs, Some(tmp(2)));
    assert_eq!(op.to_string(), "U0:2 = r8");
    assert_eq!(op.fmt_inputs(), "r8");
    let set = op.setting_output(GenericCompoundVarnode::new(tmp(4), regs.clone()));
    assert_eq!(set.seq.uniq, 2);
    assert_eq!(set.seq.order, 7);
    assert_eq!(set.inputs.len(), 1);
    match &set.output.as_ref().unwrap().comps {
        VarnodeComps::Simple(v) => assert_eq!(v.size, 4),
        VarnodeComps::Complex(_) => panic!("expected one part"),
    }
    let unioned = op.unioning_output(&GenericCompoundVarnode::new(tmp(3), regs.clone())).unwrap();
    match &unioned.output.as_ref().unwrap().comps {
        VarnodeComps::Simple(v) => {
            assert_eq!(v.offset, 0);
            assert_eq!(v.size, 3);
        },
        VarnodeComps::Complex(_) => panic!("expected one part"),
    }
    let bare = op_with_output(&regs, None);
    let still_bare = bare.unioning_output(&GenericCompoundVarnode::new(tmp(3), regs.clone())).unwrap();
    assert!(still_bare.output.is_none());
    assert_eq!(still_bare.inputs.len(), 1);
}
