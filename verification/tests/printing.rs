use std::sync::Arc;
use rust_sleigh::sla_parser::{ConstTemplate, HandleTemplate, OpTemplate, VarnodeTemplate};
use rust_sleigh::pcode_builder::{Handle, PcodeObject};
use rust_sleigh::sleigh::address::AddressSpace;
use rust_sleigh::sleigh::varnode::Varnode;
use rust_sleigh::ghidra::compound::{_coalesce_atoms, GenericCompoundVarnode, VarnodeComps, CompoundVarnodeIface};
use rust_sleigh::ghidra::types::{AddressSpace as GSpace, Varnode as GVarnode};

fn handle_tpl(i: u32) -> VarnodeTemplate {
    VarnodeTemplate {
        space_template: ConstTemplate::Handle((i, None)),
        offset_template: ConstTemplate::Handle((i, None)),
        size_template: ConstTemplate::Handle((i, None)),
    }
}

#[test]
fn const_templates_print() {
    assert_eq!(ConstTemplate::SpaceId("ram".to_string()).to_string(), "ram");
    assert_eq!(ConstTemplate::Val(0x2a).to_string(), "2a");
    assert_eq!(ConstTemplate::Handle((3, None)).to_string(), "Handle#3");
    assert_eq!(ConstTemplate::Relative(2).to_string(), "Relative(2)");
    assert_eq!(ConstTemplate::Start.to_string(), "Start");
    assert_eq!(ConstTemplate::CurSpaceSize.to_string(), "CurSpaceSize");
}

#[test]
fn varnode_and_op_templates_print() {
    let direct = VarnodeTemplate {
        space_template: ConstTemplate::SpaceId("register".to_string()),
        offset_template: ConstTemplate::Val(0x10),
        size_template: ConstTemplate::Val(8),
    };
    assert_eq!(direct.to_string(), "register:10:8");
    assert_eq!(handle_tpl(1).to_string(), "Handle#1");
    let op = OpTemplate { code: "INT_ADD".to_string(), output: Some(direct), inputs: vec![handle_tpl(0), handle_tpl(1)] };
    assert_eq!(op.to_string(), "register:10:8 = INT_ADD(Handle#0, Handle#1)");
    let store = OpTemplate { code: "STORE".to_string(), output: None, inputs: vec![] };
    assert_eq!(store.to_string(), "STORE()");
    let h = HandleTemplate {
        space_template: ConstTemplate::SpaceId("ram".to_string()),
        size_template: ConstTemplate::Val(4),
        pointer_template: handle_tpl(0),
        temp_space_template: ConstTemplate::SpaceId("unique".to_string()),
        temp_offset_template: ConstTemplate::Val(0),
    };
    assert_eq!(h.to_string(), "*[ram:4](Handle#0)");
}

#[test]
fn handles_and_objects_print() {
    let ptr = Varnode { name: Some("RAX".to_string()), space: AddressSpace::Register, offset: 0, size: 8 };
    let tmp = Varnode { name: None, space: AddressSpace::Unique, offset: 0x80, size: 4 };
    let direct = Handle { space: AddressSpace::Ram, pointer: ptr.clone(), temp: Varnode::dummy() };
    assert_eq!(direct.to_string(), ptr.to_string());
    let loaded = Handle { space: AddressSpace::Ram, pointer: ptr.clone(), temp: tmp.clone() };
    assert_eq!(loaded.to_string(), format!("*({}){}", tmp.to_string(), ptr.to_string()));
    assert_eq!(PcodeObject::Dummy.to_string(), "DUMMY");
    assert_eq!(PcodeObject::Varnode(tmp.clone()).to_string(), "U80:4");
    assert_eq!(PcodeObject::Handle(loaded).to_string(), format!("*({}){}", tmp.to_string(), ptr.to_string()));
}

fn greg(off: u64, size: u32) -> GVarnode {
    GVarnode { name: None, space: GSpace::Register, offset: off, size }
}

#[test]
fn compound_atoms_size_and_neighbors() {
    let regs: Arc<Vec<Vec<GVarnode>>> = Arc::new(vec![vec![]; 16]);
    let a = GenericCompoundVarnode::new(greg(0, 2), regs.clone());
    let atoms = a.atoms();
    assert_eq!(atoms.len(), 2);
    assert_eq!(atoms[1].offset, 1);
    assert_eq!(atoms[1].size, 1);
    assert_eq!(a.size(), Some(2));
    assert_eq!(a.offset(), Some(0));
    let b = GenericCompoundVarnode::new(greg(2, 2), regs.clone());
    let c = GenericCompoundVarnode::new(greg(5, 1), regs.clone());
    assert!(a.neighbors(&b));
    assert!(!a.neighbors(&c));
    let k = GenericCompoundVarnode { comps: VarnodeComps::Complex(vec![greg(0, 2), greg(4, 3)]), reg_sizes: regs.clone() };
    assert_eq!(k.size(), Some(5));
    assert_eq!(k.atoms().len(), 5);
    assert!(!k.neighbors(&a));
    let empty: GenericCompoundVarnode<GVarnode> = GenericCompoundVarnode { comps: VarnodeComps::Complex(vec![]), reg_sizes: regs };
    assert_eq!(empty.offset(), None);
    assert_eq!(empty.size(), Some(0));
}

fn guniq(size: u32) -> GVarnode {
    GVarnode { name: None, space: GSpace::Unique, offset: 0, size }
}

fn simple_parts(c: &GenericCompoundVarnode<GVarnode>) -> Vec<(u64, u32)> {
    match &c.comps {
        VarnodeComps::Simple(v) => vec![(v.offset, v.size)],
        VarnodeComps::Complex(vs) => vs.iter().map(|v| (v.offset, v.size)).collect(),
    }
}

#[test]
fn compound_union_intersection_and_join() {
    let regs: Arc<Vec<Vec<GVarnode>>> = Arc::new(vec![vec![]; 16]);
    let a = GenericCompoundVarnode::new(guniq(2), regs.clone());
    let b = GenericCompoundVarnode::new(guniq(3), regs.clone());
    let c = GenericCompoundVarnode::new(GVarnode { name: None, space: GSpace::Ram, offset: 0, size: 1 }, regs.clone());
    assert!(a.intersects(&b));
    assert!(!a.intersects(&c));

    let u = a.union_with(&b).unwrap();
    assert!(matches!(u.comps, VarnodeComps::Simple(_)));
    assert_eq!(simple_parts(&u), vec![(0, 3)]);

    let i = a.intersection_with(&b).unwrap();
    assert!(matches!(i.comps, VarnodeComps::Simple(_)));
    assert_eq!(simple_parts(&i), vec![(0, 2)]);

    let j = a.join_with(&b).unwrap();
    assert_eq!(simple_parts(&j), vec![(0, 3)]);

    let mixed = a.union_with(&c).unwrap();
    assert!(matches!(mixed.comps, VarnodeComps::Complex(_)));
    assert_eq!(simple_parts(&mixed), vec![(0, 2), (0, 1)]);

    let none = a.intersection_with(&c).unwrap();
    assert!(matches!(none.comps, VarnodeComps::Complex(_)));
    assert_eq!(simple_parts(&none), vec![]);

    let copied = a.copy_with(vec![guniq(1), guniq(4)]);
    assert_eq!(simple_parts(&copied), vec![(0, 1), (0, 4)]);
}

#[test]
fn compound_is_stack_pointer() {
    let regs: Arc<Vec<Vec<GVarnode>>> = Arc::new(vec![vec![]; 16]);
    let sp = GVarnode { name: Some("RSP".to_string()), space: GSpace::Register, offset: 0x20, size: 8 };
    let one = GenericCompoundVarnode::new(sp.clone(), regs.clone());
    assert!(one.is_sp(&sp));
    let listed = GenericCompoundVarnode { comps: VarnodeComps::Complex(vec![sp.clone()]), reg_sizes: regs.clone() };
    assert!(listed.is_sp(&sp));
    let two = GenericCompoundVarnode { comps: VarnodeComps::Complex(vec![sp.clone(), greg(0x28, 8)]), reg_sizes: regs.clone() };
    assert!(!two.is_sp(&sp));
    let other = GenericCompoundVarnode::new(greg(0x20, 8), regs);
    assert!(!other.is_sp(&sp));
}

fn guniq_at(off: u64) -> GVarnode {
    GVarnode { name: None, space: GSpace::Unique, offset: off, size: 1 }
}

#[test]
fn coalescing_gives_one_piece_per_run() {
    let atoms = vec![guniq_at(0), guniq_at(1), guniq_at(2), guniq_at(5), guniq_at(6)];
    let pieces = _coalesce_atoms(&atoms).unwrap();
    assert_eq!(pieces.len(), 2);
    assert_eq!((pieces[0].offset, pieces[0].size, pieces[0].name.clone()), (0, 2, None));
    assert_eq!((pieces[1].offset, pieces[1].size, pieces[1].name.clone()), (5, 2, None));
    assert_eq!(_coalesce_atoms::<GVarnode>(&vec![]).unwrap().len(), 0);
}

#[test]
fn compounds_compare_by_parts() {
    let regs: Arc<Vec<Vec<GVarnode>>> = Arc::new(vec![vec![]; 16]);
    let a = GenericCompoundVarnode::new(guniq(2), regs.clone());
    let b = GenericCompoundVarnode::new(guniq(2), regs.clone());
    let c = GenericCompoundVarnode::new(guniq(3), regs.clone());
    assert!(a.same_as(&b));
    assert!(!a.same_as(&c));
    let l1 = GenericCompoundVarnode { comps: VarnodeComps::Complex(vec![guniq(1), guniq(2)]), reg_sizes: regs.clone() };
    let l2 = GenericCompoundVarnode { comps: VarnodeComps::Complex(vec![guniq(1), guniq(2)]), reg_sizes: regs.clone() };
    let l3 = GenericCompoundVarnode { comps: VarnodeComps::Complex(vec![guniq(1)]), reg_sizes: regs };
    assert!(l1.same_as(&l2));
    assert!(!l1.same_as(&l3));
    assert!(!a.same_as(&l3));
}
