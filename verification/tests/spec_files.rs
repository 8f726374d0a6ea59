use rust_sleigh::arch::{find_language, find_sla_file, CompilerSpec, Language, ProcessorSpec};
use rust_sleigh::sla_parser::{
    registers_of, ConsTemplate, ConstTemplate, DecisionPattern, DecisionTree, Expr, ExprOp, Field, HandleExpr,
    PrintCommand, SleighLanguage, SymbolBody,
};
use rust_sleigh::sla_syntax::program;
use rust_sleigh::sleigh::address::AddressSpace;
use rust_sleigh::sleigh::varnode::Varnode;
use rust_sleigh::utils::try_signed_dec;
use rust_sleigh::xml::{tokenize, TagKind};

const SLA: &str = r#"<sleigh version="3" bigendian="false" align="1" uniqbase="0x10000000">
<sourcefiles>
<sourcefile name="toy.slaspec" index="0"/>
</sourcefiles>
<spaces defaultspace="ram">
<space_unique name="unique" index="1" bigendian="false" delay="0" size="4" physical="true"/>
<space name="ram" index="2" bigendian="false" delay="1" size="8" physical="true"/>
<space_other name="register" index="3" bigendian="false" delay="0" size="4" physical="true"/>
</spaces>
<symbol_table scopesize="1" symbolsize="9">
<scope id="0x0" parent="0x0"/>
<varnode_sym_head name="RAX" id="0x1" scope="0x0"/>
<varnode_sym name="RAX" id="0x1" scope="0x0" space="register" offset="0x0" size="8">
</varnode_sym>
<varnode_sym name="contextreg" id="0x2" scope="0x0" space="register" offset="0x100" size="4">
</varnode_sym>
<context_sym name="mode" id="0x3" scope="0x0" varnode="0x2" low="0" high="3" flow="true">
<contextfield signbit="false" startbit="0" endbit="3" startbyte="0" endbyte="0" shift="4"/>
</context_sym>
<value_sym name="imm8" id="0x4" scope="0x0">
<tokenfield bigendian="false" signbit="false" bitstart="8" bitend="15" bytestart="1" byteend="1" shift="0"/>
</value_sym>
<operand_sym name="op1" id="0x5" scope="0x0" subsym="0x4" off="1" base="-1" minlen="1" code="true">
<operand_exp index="0" table="0x6" ct="0x0"/>
<plus_exp>
<operand_exp index="0" table="0x6" ct="0x0"/>
<intb val="-2"/>
</plus_exp>
</operand_sym>
<subtable_sym name="instruction" id="0x6" scope="0x0" numct="1">
<constructor parent="0x6" first="0" length="2" line="0:12">
<oper id="0x5"/>
<print piece="MOV "/>
<opprint id="0"/>
<context_op i="0" shift="4" mask="0xf0">
<intb val="1"/>
</context_op>
<construct_tpl>
<null/>
<op_tpl code="COPY"><varnode_tpl><const_tpl type="spaceid" name="register"/><const_tpl type="real" val="0x0"/><const_tpl type="real" val="0x8"/></varnode_tpl>
<varnode_tpl><const_tpl type="handle" val="0"/><const_tpl type="handle" val="1" s="offset_plus" plus="0x10004"/><const_tpl type="handle" val="2"/></varnode_tpl>
</op_tpl>
</construct_tpl>
</constructor>
<decision number="0" context="false" start="0" size="0">
<pair id="0">
<instruct_pat>
<pat_block offset="0" nonzero="1">
<mask_word mask="0xff000000" val="0xb8000000"/>
</pat_block>
</instruct_pat>
</pair>
</decision>
</subtable_sym>
<varnode_sym name="RIP" id="0x8" scope="0x0" space="register" offset="0x10" size="8">
</varnode_sym>
<userop name="syscall" id="0x7" scope="0x0" index="0"/>
</symbol_table>
</sleigh>
"#;

const PSPEC: &str = r#"<?xml version="1.0" encoding="UTF-8"?>
<processor_spec>
  <programcounter register="RIP"/>
  <context_data>
    <context_set space="ram">
      <set name="mode" val="0x2"/>
      <set name="other" val="7"/>
    </context_set>
  </context_data>
</processor_spec>
"#;

const CSPEC: &str = r#"<?xml version="1.0" encoding="UTF-8"?>
<compiler_spec>
  <stackpointer register="RSP" space="ram"/>
  <returnaddress>
    <varnode space="stack" offset="0" size="8"/>
  </returnaddress>
  <default_proto>
    <prototype name="__stdcall" extrapop="8" stackshift="8">
      <input>
        <pentry minsize="1" maxsize="8">
          <register name="RDI"/>
        </pentry>
        <pentry minsize="1" maxsize="8" metatype="float">
          <register name="XMM0"/>
        </pentry>
        <pentry minsize="1" maxsize="8">
          <register name="RSI"/>
        </pentry>
      </input>
      <output>
        <pentry minsize="1" maxsize="8">
          <register name="RAX"/>
        </pentry>
      </output>
      <killedbycall>
        <register name="RAX"/>
        <register name="RAX"/>
      </killedbycall>
      <unaffected>
        <varnode space="ram" offset="0x10" size="2"/>
      </unaffected>
    </prototype>
  </default_proto>
  <prototype name="syscall" extrapop="unknown" stackshift="0">
  </prototype>
</compiler_spec>
"#;

const LDEFS: &str = r#"<?xml version="1.0" encoding="UTF-8"?>
<language_definitions>
  <language processor="toy" endian="little" size="64" variant="default" version="1.0" slafile="toy.sla" processorspec="toy.pspec" id="toy:LE:64:default">
    <description>Toy</description>
    <compiler name="gcc" spec="toy-gcc.cspec" id="gcc"/>
    <compiler name="Visual Studio" spec="toy-win.cspec" id="windows"/>
  </language>
</language_definitions>
"#;

fn reg(name: &str, off: u64, size: u64) -> (String, Varnode) {
    (name.to_string(), Varnode { name: Some(name.to_string()), space: AddressSpace::Register, offset: off, size })
}

fn regs() -> Vec<(String, Varnode)> {
    vec![reg("RAX", 0, 8), reg("RSP", 0x20, 8), reg("RDI", 0x38, 8), reg("RSI", 0x30, 8), reg("XMM0", 0x1200, 16), reg("RIP", 0x10, 8)]
}

#[test]
fn tokenizer_reads_tags() {
    let toks = tokenize("<a x=\"1\" y=\"\"/>\n  <b>\t</b>").unwrap();
    assert_eq!(toks.len(), 3);
    assert_eq!(toks[0].kind, TagKind::Empty);
    assert_eq!(toks[0].name, "a");
    assert_eq!(toks[0].attrs, vec![("x".to_string(), "1".to_string()), ("y".to_string(), String::new())]);
    assert_eq!(toks[1].kind, TagKind::Open);
    assert_eq!(toks[2].kind, TagKind::Close);
    assert_eq!(toks[2].name, "b");
}

#[test]
fn tokenizer_refuses_other_text() {
    assert!(tokenize("<a x='1'/>").is_none());
    assert!(tokenize("text").is_none());
    assert!(tokenize("<a x=\"1\" />").is_none());
    assert!(tokenize("<1a/>").is_none());
    assert_eq!(tokenize("  \n").unwrap().len(), 0);
}

#[test]
fn signed_decimals() {
    assert_eq!(try_signed_dec("-5", 1 << 63), Some(-5));
    assert_eq!(try_signed_dec("+7", 1 << 63), Some(7));
    assert_eq!(try_signed_dec("-9223372036854775808", 1 << 63), Some(i64::MIN));
    assert_eq!(try_signed_dec("9223372036854775808", 1 << 63), None);
    assert_eq!(try_signed_dec("-", 1 << 63), None);
    assert_eq!(try_signed_dec("-+3", 1 << 63), None);
    assert_eq!(try_signed_dec("2147483648", 1 << 31), None);
    assert_eq!(try_signed_dec("-2147483648", 1 << 31), Some(-2147483648));
}

#[test]
fn sla_header_and_spaces() {
    let p = program(SLA).unwrap();
    assert_eq!(p.version, 3);
    assert!(!p.bigendian);
    assert_eq!(p.align, 1);
    assert_eq!(p.uniqbase, 0x10000000);
    assert_eq!(p.default_space, "ram");
    assert_eq!(p.spaces.len(), 3);
    assert_eq!(p.spaces[1].name, "ram");
    assert_eq!(p.spaces[1].index, 2);
    assert_eq!(p.spaces[1].delay, 1);
    assert_eq!(p.spaces[1].size, 8);
    assert_eq!(p.symbols.len(), 10);
}

#[test]
fn sla_small_symbols() {
    let p = program(SLA).unwrap();
    assert_eq!(p.symbols[0].id, 0);
    assert!(matches!(p.symbols[0].body, SymbolBody::Scope(_)));
    match &p.symbols[1].body {
        SymbolBody::SymHead(h) => assert_eq!(h.name, "RAX"),
        _ => panic!("expected a symbol head"),
    }
    match &p.symbols[9].body {
        SymbolBody::UserOp(u) => {
            assert_eq!(u.name, "syscall");
            assert_eq!(u.idx, 0);
        },
        _ => panic!("expected a user op"),
    }
    assert_eq!(p.symbols[9].id, 7);
}

#[test]
fn sla_varnodes_context_and_values() {
    let p = program(SLA).unwrap();
    match &p.symbols[3].body {
        SymbolBody::Varnode(v) => {
            assert_eq!(v.name, "contextreg");
            assert_eq!(v.space, AddressSpace::Register);
            assert_eq!(v.offset, 0x100);
            assert_eq!(v.size, 4);
        },
        _ => panic!("expected a varnode"),
    }
    match &p.symbols[4].body {
        SymbolBody::Context(c) => {
            assert_eq!(c.varnode, 2);
            assert_eq!(c.high, 3);
            assert!(c.flow);
            assert_eq!(c.context_field.shift, 4);
        },
        _ => panic!("expected a context variable"),
    }
    match &p.symbols[5].body {
        SymbolBody::Value(v) => match &v.field {
            Field::Token(f) => {
                assert_eq!(f.start_bit, 8);
                assert_eq!(f.end_bit, 15);
                assert_eq!(f.start_byte, 1);
            },
            _ => panic!("expected a token field"),
        },
        _ => panic!("expected a value"),
    }
}

#[test]
fn sla_operand_with_expression() {
    let p = program(SLA).unwrap();
    assert_eq!(p.symbols[6].id, 5);
    match &p.symbols[6].body {
        SymbolBody::Operand(o) => {
            assert_eq!(o.name, "op1");
            assert_eq!(o.subsym, 4);
            assert_eq!(o.off, 1);
            assert_eq!(o.base, -1);
            assert_eq!(o.min_len, 1);
            assert_eq!(o.idx, 0);
            assert!(o.is_code);
            assert_eq!(o.operand_expr.table, 6);
            match &o.expr {
                Some(Expr::Binary((op, l, r))) => {
                    assert_eq!(*op, ExprOp::Add);
                    assert!(matches!(**l, Expr::Operand(_)));
                    assert!(matches!(**r, Expr::Const(-2)));
                },
                _ => panic!("expected a sum"),
            }
        },
        _ => panic!("expected an operand"),
    }
}

#[test]
fn sla_subtable_constructor_and_tree() {
    let p = program(SLA).unwrap();
    let st = match &p.symbols[7].body {
        SymbolBody::Subtable(st) => st,
        _ => panic!("expected a subtable"),
    };
    assert_eq!(st.name, "instruction");
    let c = &st.constructors[0];
    assert_eq!(c._parent, 6);
    assert_eq!(c.length, 2);
    assert_eq!(c.line, (0, 12));
    assert_eq!(c.operands, vec![5]);
    let prints = c.print_commands.as_ref().unwrap();
    assert!(matches!(&prints[0], PrintCommand::Piece(s) if s == "MOV "));
    assert!(matches!(prints[1], PrintCommand::Op(0)));
    assert_eq!(c.context_ops[0].mask, 0xf0);
    assert!(matches!(c.context_ops[0].expr, Expr::Const(1)));
    let t = c.template.as_ref().unwrap();
    assert_eq!(t.num_labels, 0);
    match &t.statements[0] {
        ConsTemplate::Op(o) => {
            assert_eq!(o.code, "COPY");
            assert!(matches!(&o.output.as_ref().unwrap().space_template, ConstTemplate::SpaceId(s) if s == "register"));
            assert_eq!(o.inputs.len(), 1);
            assert!(matches!(o.inputs[0].offset_template, ConstTemplate::Handle((1, Some(HandleExpr::OffsetPlus(4))))));
        },
        _ => panic!("expected an op"),
    }
    match &st.decision_tree {
        DecisionTree::NonLeaf((ctx, start, size, children)) => {
            assert!(!*ctx);
            assert_eq!((*start, *size), (0, 0));
            match &children[0] {
                DecisionTree::Leaf(pairs) => {
                    assert_eq!(pairs[0].0, 0);
                    match &pairs[0].1 {
                        DecisionPattern::Instruction(b) => {
                            assert_eq!(b.nonzero, 1);
                            assert_eq!(b.masks[0].mask, 0xff000000);
                            assert_eq!(b.masks[0].val, 0xb8000000);
                        },
                        _ => panic!("expected an instruction pattern"),
                    }
                },
                _ => panic!("expected a leaf"),
            }
        },
        _ => panic!("expected a decision node"),
    }
}

#[test]
fn sla_refuses_malformed_specifications() {
    assert!(program("<sleigh version=\"x\" bigendian=\"false\" align=\"1\" uniqbase=\"0x0\">").is_none());
    assert!(program(&SLA.replace("<intb val=\"-2\"/>", "<intb val=\"z\"/>")).is_none());
    assert!(program(&SLA.replace("space=\"register\" offset=\"0x100\"", "space=\"nowhere\" offset=\"0x100\"")).is_none());
    assert!(program(&SLA.replace("</subtable_sym>", "")).is_none());
}

#[test]
fn registers_from_the_specification() {
    let p = program(SLA).unwrap();
    let r = registers_of(&p);
    assert_eq!(r.len(), 3);
    assert_eq!(r[0].0, "RAX");
    assert_eq!(r[1].0, "contextreg");
    assert_eq!(r[2].1, Varnode { name: None, space: AddressSpace::Register, offset: 0x10, size: 8 });
    assert_eq!(r[2].1.name.as_deref(), Some("RIP"));
}

#[test]
fn processor_spec_from_text() {
    let ps = ProcessorSpec::from_text(PSPEC, &regs()).unwrap();
    assert_eq!(ps.pc_reg.name.as_deref(), Some("RIP"));
    assert_eq!(ps.defaults, vec![("mode".to_string(), 2), ("other".to_string(), 7)]);
    assert!(ProcessorSpec::from_text(&PSPEC.replace("RIP", "PC"), &regs()).is_none());
    assert!(ProcessorSpec::from_text("<unclosed>", &regs()).is_none());
}

#[test]
fn compiler_spec_from_text() {
    let cs = CompilerSpec::from_text(CSPEC, &regs()).unwrap();
    assert_eq!(cs.stack_pointer.offset, 0x20);
    assert_eq!(cs.return_address, Varnode { name: None, space: AddressSpace::Stack, offset: 0, size: 8 });
    assert_eq!(cs.default_proto, "__stdcall");
    assert_eq!(cs.prototypes.len(), 3);
    assert_eq!(cs.prototypes[2].0, "syscall");
    assert_eq!(cs.prototypes[2].1.extrapop, 0);
    let p = &cs.prototypes[0].1;
    assert_eq!(p.extrapop, 8);
    assert_eq!(p.stackshift, 8);
    assert_eq!(p.inputs.len(), 2);
    assert_eq!(p.inputs[0].0, "int");
    assert_eq!(p.inputs[0].1.len(), 2);
    assert_eq!(p.inputs[0].1[1].offset, 0x30);
    assert_eq!(p.inputs[1].0, "float");
    assert_eq!(p.outputs[0].1[0].offset, 0);
    assert_eq!(p.killed.len(), 8);
    assert_eq!(p.unaff.len(), 2);
    assert!(p.unaff.contains(&Varnode { name: None, space: AddressSpace::Ram, offset: 0x11, size: 1 }));
    assert_eq!(cs.default_proto().unwrap().name, "__stdcall");
}

#[test]
fn language_definitions() {
    let f = find_language(LDEFS, "toy:LE:64:default").unwrap();
    assert_eq!(f.id, "toy:LE:64:default");
    assert_eq!(f.processor_spec, "toy.pspec");
    assert_eq!(f.compilers, vec![
        ("gcc".to_string(), "toy-gcc.cspec".to_string()),
        ("Visual Studio".to_string(), "toy-win.cspec".to_string()),
    ]);
    assert!(find_language(LDEFS, "other:LE:32:default").is_none());
    assert_eq!(find_sla_file(LDEFS, "toy:LE:64:default").unwrap(), "toy.sla");
    assert!(find_sla_file(LDEFS, "other").is_none());
}

#[test]
fn language_from_files() {
    let regs = regs();
    let pspec = ProcessorSpec::from_text(PSPEC, &regs).unwrap();
    let cspec = CompilerSpec::from_text(CSPEC, &regs).unwrap();
    let lang = Language::new("toy".to_string(), pspec.clone(), vec![("gcc".to_string(), cspec.clone())], "gcc").unwrap();
    assert_eq!(lang.cspec.default_proto, "__stdcall");
    assert_eq!(lang.cspec.prototypes.len(), 3);
    assert!(Language::new("toy".to_string(), pspec, vec![("gcc".to_string(), cspec)], "clang").is_none());
}

#[test]
fn sleigh_language_from_text() {
    let p = program(SLA).unwrap();
    let regs = registers_of(&p);
    let mut all = regs.clone();
    all.extend(self::regs());
    let pspec = ProcessorSpec::from_text(PSPEC, &all).unwrap();
    let cspec = CompilerSpec::from_text(CSPEC, &all).unwrap();
    let lang = Language::new("toy".to_string(), pspec, vec![("gcc".to_string(), cspec)], "gcc").unwrap();
    let sl = SleighLanguage::from_program(p, lang).unwrap();
    assert_eq!(sl.insn_table_id, 6);
    assert_eq!(sl.context_reg.offset, 0x100);
    assert_eq!(sl.bit_align, 8);
}
