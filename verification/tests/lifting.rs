use rust_sleigh::arch::{CompilerSpec, Language, ProcessorSpec, Prototype};
use rust_sleigh::disassembler::{past_window, section_window, Disassembler};
use rust_sleigh::pcode_builder::{sign_extend, sort_by_indices};
use rust_sleigh::sla_parser::{
    get_word, get_word_le, ConsTemplate, ConstTemplate, ConstructorTemplate, Constructor, DecisionPattern,
    DecisionTree, MaskWord, OpTemplate, Operand, OperandExpr, PatternBlock, PrintCommand, Program, Space, Subtable,
    Symbol, SymbolBody, VarnodeSym, VarnodeTemplate, SleighLanguage, Context, ContextField,
};
use rust_sleigh::sleigh::address::{Address, AddressSpace};
use rust_sleigh::sleigh::opcode::OpCode;
use rust_sleigh::sleigh::seqnum::SeqNum;
use rust_sleigh::sleigh::op::Op;
use rust_sleigh::sleigh::varnode::Varnode;
use rust_sleigh::symbol_resolver::{evaluate_expr, match_pattern, MatchedSymbol};
use rust_sleigh::sla_parser::{Expr, ExprOp, FixupType};

fn reg(off: u64, size: u64) -> Varnode {
    Varnode { name: None, space: AddressSpace::Register, offset: off, size }
}

fn language() -> Language {
    let cspec = CompilerSpec {
        stack_pointer: reg(0x20, 8),
        return_address: Varnode { name: None, space: AddressSpace::Stack, offset: 0, size: 8 },
        default_proto: "__stdcall".to_string(),
        prototypes: vec![(
            "__stdcall".to_string(),
            Prototype {
                name: "__stdcall".to_string(),
                extrapop: 8,
                stackshift: 8,
                inputs: vec![],
                outputs: vec![],
                killed: vec![],
                unaff: vec![],
            },
        )],
    };
    Language {
        name: "toy".to_string(),
        pspec: ProcessorSpec { pc_reg: reg(0x28, 8), defaults: vec![("mode".to_string(), 1)] },
        cspecs: vec![],
        cspec,
    }
}

fn handle_tpl(i: u32) -> VarnodeTemplate {
    VarnodeTemplate {
        space_template: ConstTemplate::Handle((i, None)),
        offset_template: ConstTemplate::Handle((i, None)),
        size_template: ConstTemplate::Handle((i, None)),
    }
}

fn program() -> Program {
    let copy = OpTemplate {
        code: "COPY".to_string(),
        output: Some(VarnodeTemplate {
            space_template: ConstTemplate::SpaceId("register".to_string()),
            offset_template: ConstTemplate::Val(8),
            size_template: ConstTemplate::Val(8),
        }),
        inputs: vec![handle_tpl(0)],
    };
    let ct = Constructor {
        _parent: 0,
        _first: 0,
        length: 1,
        operands: vec![1],
        print_commands: Some(vec![PrintCommand::Piece("mov RBX, ".to_string()), PrintCommand::Op(0)]),
        context_ops: vec![],
        template: Some(ConstructorTemplate { num_labels: 0, statements: vec![ConsTemplate::Op(copy)] }),
        line: (1, 1),
    };
    let tree = DecisionTree::Leaf(vec![(
        0,
        DecisionPattern::Instruction(PatternBlock {
            offset: 0,
            nonzero: 0,
            masks: vec![MaskWord { mask: 0xff000000, val: 0x90000000 }],
        }),
    )]);
    let insn = Symbol {
        id: 0,
        body: SymbolBody::Subtable(Subtable { name: "instruction".to_string(), scope: 0, constructors: vec![ct], decision_tree: tree }),
    };
    let operand = Symbol {
        id: 1,
        body: SymbolBody::Operand(Operand {
            name: "src".to_string(),
            scope: 0,
            subsym: 2,
            off: 0,
            base: -1,
            min_len: 0,
            idx: 0,
            is_code: false,
            operand_expr: OperandExpr { idx: 0, table: 0, ct: 0 },
            expr: None,
        }),
    };
    let rax = Symbol {
        id: 2,
        body: SymbolBody::Varnode(VarnodeSym { name: "RAX".to_string(), scope: 0, space: AddressSpace::Register, offset: 0, size: 8 }),
    };
    let rbx = Symbol {
        id: 3,
        body: SymbolBody::Varnode(VarnodeSym { name: "RBX".to_string(), scope: 0, space: AddressSpace::Register, offset: 8, size: 8 }),
    };
    let ctxreg = Symbol {
        id: 4,
        body: SymbolBody::Varnode(VarnodeSym { name: "contextreg".to_string(), scope: 0, space: AddressSpace::Register, offset: 0x30, size: 4 }),
    };
    let mode = Symbol {
        id: 5,
        body: SymbolBody::Context(Context {
            name: "mode".to_string(),
            scope: 0,
            varnode: 4,
            low: 0,
            high: 1,
            flow: true,
            context_field: ContextField { sign_bit: false, start_bit: 0, end_bit: 1, start_byte: 0, end_byte: 0, shift: 0 },
        }),
    };
    Program {
        version: 3,
        bigendian: false,
        align: 1,
        uniqbase: 0x1000,
        default_space: "ram".to_string(),
        spaces: vec![
            Space { name: "const".to_string(), index: 0, big_endian: false, delay: 0, size: 8, physical: true },
            Space { name: "register".to_string(), index: 1, big_endian: false, delay: 0, size: 4, physical: true },
        ],
        symbols: vec![insn, operand, rax, rbx, ctxreg, mode],
    }
}

fn toy() -> SleighLanguage {
    SleighLanguage::from_program(program(), language()).expect("language")
}

#[test]
fn get_word_reads_big_and_little_endian() {
    let w = [0x12u8, 0x34, 0x56, 0x78, 0x9a];
    assert_eq!(get_word(&w, 0, 4), 0x12345678);
    assert_eq!(get_word(&w, 3, 4), 0x789a);
    assert_eq!(get_word(&w, 9, 4), 0);
    assert_eq!(get_word_le(&w, 0, 4), 0x78563412);
    assert_eq!(get_word_le(&w, 3, 4), 0x9a78);
    let rev = [0x9au8, 0x78, 0x56, 0x34, 0x12];
    assert_eq!(get_word_le(&w, 0, 5), get_word(&rev, 0, 5));
    assert_eq!(get_word_le(&w, 3, 4), get_word(&[0x9a, 0x78], 0, 2));
}

#[test]
fn sign_extend_between_sizes() {
    assert_eq!(sign_extend(0xff, 1, 8), 0xffffffffffffffff);
    assert_eq!(sign_extend(0xff, 1, 2), 0xffff);
    assert_eq!(sign_extend(0x7f, 1, 8), 0x7f);
    assert_eq!(sign_extend(0x8000, 2, 4), 0xffff8000);
}

#[test]
fn sort_by_indices_applies_the_permutation() {
    let mut data = vec!['a', 'b', 'c', 'd', 'e'];
    sort_by_indices(&mut data, vec![2, 0, 1, 4, 3]);
    assert_eq!(data, vec!['c', 'a', 'b', 'e', 'd']);
    let mut data = vec![10, 20, 30];
    sort_by_indices(&mut data, vec![0, 1, 2]);
    assert_eq!(data, vec![10, 20, 30]);
}

#[test]
fn patterns_match_instruction_and_context() {
    let p = DecisionPattern::Instruction(PatternBlock { offset: 0, nonzero: 0, masks: vec![MaskWord { mask: 0xff000000, val: 0x90000000 }] });
    assert_eq!(match_pattern(&p, &[0x90, 0, 0, 0], &vec![]), Some(true));
    assert_eq!(match_pattern(&p, &[0x91, 0, 0, 0], &vec![]), Some(false));
    assert_eq!(match_pattern(&p, &[0x90], &vec![]), Some(false));
    let c = DecisionPattern::Context(PatternBlock { offset: 0, nonzero: 0, masks: vec![MaskWord { mask: 0xc0000000, val: 0x40000000 }] });
    assert_eq!(match_pattern(&c, &[], &vec![0x40000000]), Some(true));
    assert_eq!(match_pattern(&c, &[], &vec![]), None);
}

#[test]
fn expressions_evaluate_over_operands() {
    let ops: Vec<(MatchedSymbol, Option<FixupType>)> = vec![(MatchedSymbol::Literal((0xfe, 1)), None)];
    let e = Expr::Binary((ExprOp::Add, Box::new(Expr::Operand(OperandExpr { idx: 0, table: 0, ct: 0 })), Box::new(Expr::Const(10))));
    assert_eq!(evaluate_expr(&e, &vec![], &ops), Some((8, 8, None)));
    let s = Expr::Binary((ExprOp::Add, Box::new(Expr::Start), Box::new(Expr::Const(4))));
    assert_eq!(evaluate_expr(&s, &vec![], &ops), Some((4, 8, Some(FixupType::Start))));
    let ovf = Expr::Binary((ExprOp::Add, Box::new(Expr::Const(i64::MAX)), Box::new(Expr::Const(1))));
    assert_eq!(evaluate_expr(&ovf, &vec![], &ops), None);
    let sh = Expr::Binary((ExprOp::Lshift, Box::new(Expr::Const(1)), Box::new(Expr::Const(70))));
    assert_eq!(evaluate_expr(&sh, &vec![], &ops), Some((0, 8, None)));
}

#[test]
fn language_from_program() {
    let lang = toy();
    assert_eq!(lang.insn_table_id, 0);
    assert_eq!(lang.bit_align, 8);
    assert_eq!(lang.context_reg.name, "contextreg");
    assert_eq!(lang.reg_space_size, 0x34);
    assert_eq!(lang.varnode_map.get(0, 8), Some("RAX".to_string()));
    assert_eq!(lang.reg_sizes.len(), 0x34);
    assert_eq!(lang.reg_sizes.len(), lang.reg_space_size);
    assert_eq!(lang.reg_sizes[8].len(), 1);
    assert_eq!(lang.reg_sizes[8][0].name, Some("RBX".to_string()));
    assert_eq!(lang.spaces, vec![("const".to_string(), 0), ("register".to_string(), 1)]);
}

#[test]
fn disassemble_one_instruction() {
    let d = Disassembler::from_language("toy".to_string(), "default".to_string(), None, toy()).expect("disassembler");
    assert_eq!(d.default_ctx_reg, vec![0x40000000]);
    let insn = d.disassemble_one(&[0x90, 0x00, 0x00, 0x00], Address::ram(0x1000)).expect("insn");
    assert_eq!(insn.length, 1);
    assert_eq!(insn.assembly, "mov RBX, RAX");
    assert_eq!(insn.ops.len(), 1);
    assert_eq!(insn.ops[0].opcode, OpCode::Copy);
    assert_eq!(insn.ops[0].seq.uniq, 0);
    assert_eq!(insn.ops[0].output.as_ref().unwrap().name, Some("RBX".to_string()));
    assert_eq!(insn.ops[0].inputs[0].name, Some("RAX".to_string()));
    assert!(d.disassemble_one(&[0x91, 0x00, 0x00, 0x00], Address::ram(0x1000)).is_none());
}

#[test]
fn disassembly_walk_skips_undecodable_bytes() {
    let d = Disassembler::from_language("toy".to_string(), "default".to_string(), None, toy()).expect("disassembler");
    let data = [0x90u8, 0x91, 0x90, 0x00, 0x00, 0x00];
    let mut it = d.disassemble(&data, 0x400);
    let a = it.next().expect("first");
    assert_eq!(a.address.offset, 0x400);
    let b = it.next().expect("second");
    assert_eq!(b.address.offset, 0x402);
    assert!(it.next().is_none());
    assert_eq!(it.num_insns, 2);
}

#[test]
fn disassembly_walk_stops_at_the_limit() {
    let d = Disassembler::from_language("toy".to_string(), "default".to_string(), Some(1), toy()).expect("disassembler");
    let data = [0x90u8, 0x90, 0x00, 0x00, 0x00];
    let mut it = d.disassemble(&data, 0x400);
    assert_eq!(it.next().expect("first").address.offset, 0x400);
    assert!(it.next().is_none());
    assert_eq!(it.num_insns, 1);
}

#[test]
fn call_setup_is_recognized() {
    let lang = language();
    let sp = reg(0x20, 8);
    let sub: rust_sleigh::sleigh::op::PcodeOp = Op::new(SeqNum::at(0), OpCode::IntSub, vec![sp.clone(), Varnode::constant(8, 8)], Some(sp.clone()));
    let store = Op::new(SeqNum::at(0), OpCode::Store, vec![sp.clone(), Varnode::constant(0x1005, 8)], None);
    assert_eq!(lang.cspec.is_call_setup(&[sub, store], 0x1005), Some(true));
    let store = Op::new(SeqNum::at(0), OpCode::Store, vec![sp.clone(), Varnode::constant(0x1005, 8)], None);
    assert_eq!(lang.cspec.is_call_setup(&[store], 0x1005), Some(false));
    assert_eq!(lang.cspec.is_call_setup(&[], 0x1005), None);
}

#[test]
fn section_windows_and_stopping() {
    assert_eq!(section_window(0x1000, 0x100, 0x400, u64::MAX), Some((0x400, 0x500, 0x1000, u64::MAX)));
    assert_eq!(section_window(0x1000, 0x100, 0x400, 0x1010), Some((0x410, 0x500, 0x1010, 0x1110)));
    assert_eq!(section_window(0x1000, 0x100, 0x400, 0x2000), None);
    assert!(past_window(5, 4, u64::MAX, 0x1000));
    assert!(!past_window(4, 4, u64::MAX, 0x1000));
    assert!(past_window(1, 4, 0x1000, 0x1000));
    assert!(!past_window(1, 4, 0x1001, 0x1000));
}
