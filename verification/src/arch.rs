//! Processor and compiler specifications: calling conventions, the stack pointer and the
//! return address, and the default context values.
use vstd::prelude::*;
use crate::sleigh::varnode::{Varnode, same_location};
use crate::sleigh::address::AddressSpace;
use crate::sleigh::opcode::OpCode;
use crate::sleigh::op::PcodeOp;
use crate::text::str_eq;
use crate::utils::{spec_parse_int, try_parse_int, spec_from_str_radix, try_u64dec};
use crate::sleigh::address::spec_space_of_name;

verus! {

/// A calling convention.
#[derive(Clone, Debug)]
pub struct Prototype {
    pub name: String,
    pub extrapop: u64,
    pub stackshift: u64,
    pub inputs: Vec<(String, Vec<Varnode>)>,
    pub outputs: Vec<(String, Vec<Varnode>)>,
    pub killed: Vec<Varnode>,
    pub unaff: Vec<Varnode>,
}

/// A compiler specification: its stack pointer, return address and calling conventions.
#[derive(Clone, Debug)]
pub struct CompilerSpec {
    pub stack_pointer: Varnode,
    pub return_address: Varnode,
    pub default_proto: String,
    pub prototypes: Vec<(String, Prototype)>,
}

/// A processor specification: its program counter and default context values.
#[derive(Clone, Debug)]
pub struct ProcessorSpec {
    pub pc_reg: Varnode,
    pub defaults: Vec<(String, u32)>,
}

/// A language: its processor specification and compiler specifications.
#[derive(Clone, Debug)]
pub struct Language {
    pub name: String,
    pub pspec: ProcessorSpec,
    pub cspecs: Vec<(String, CompilerSpec)>,
    pub cspec: CompilerSpec,
}

/// The prototype named `name`, from the latest entry that names it.
pub open spec fn spec_prototype(entries: Seq<(String, Prototype)>, name: Seq<char>) -> Option<Prototype>
    decreases entries.len(),
{
    if entries.len() == 0 {
        None
    } else if entries.last().0@ == name {
        Some(entries.last().1)
    } else {
        spec_prototype(entries.drop_last(), name)
    }
}

/// Whether an op is `out = opcode(a, b)` (locations compared, names aside).
pub open spec fn spec_op_matches2(op: PcodeOp, out: Option<Varnode>, opcode: OpCode, a: Varnode, b: Varnode) -> bool {
    &&& match out {
        Some(o) => op.output is Some && same_location(op.output.unwrap(), o),
        None => true,
    }
    &&& op.opcode == opcode
    &&& op.inputs@.len() == 2
    &&& same_location(op.inputs@[0], a)
    &&& same_location(op.inputs@[1], b)
}

/// Whether an op is `out = opcode(a)` (locations compared, names aside).
pub open spec fn spec_op_matches1(op: PcodeOp, out: Varnode, opcode: OpCode, a: Varnode) -> bool {
    &&& op.output is Some && same_location(op.output.unwrap(), out)
    &&& op.opcode == opcode
    &&& op.inputs@.len() == 1
    &&& same_location(op.inputs@[0], a)
}

fn op_matches2(op: &PcodeOp, out: Option<&Varnode>, opcode: OpCode, a: &Varnode, b: &Varnode) -> (r: bool)
    ensures
        r == spec_op_matches2(*op, match out { Some(o) => Some(*o), None => None }, opcode, *a, *b),
{
    let out_ok = match out {
        Some(o) => match &op.output {
            Some(x) => *x == *o,
            None => false,
        },
        None => true,
    };
    out_ok && op.opcode == opcode && op.inputs.len() == 2 && op.inputs[0] == *a && op.inputs[1] == *b
}

fn op_matches1(op: &PcodeOp, out: &Varnode, opcode: OpCode, a: &Varnode) -> (r: bool)
    ensures
        r == spec_op_matches1(*op, *out, opcode, *a),
{
    let out_ok = match &op.output {
        Some(x) => *x == *out,
        None => false,
    };
    out_ok && op.opcode == opcode && op.inputs.len() == 1 && op.inputs[0] == *a
}

/// Whether ops set up a call whose return address is `ft`: where the default prototype
/// shifts the stack, first `sp = sp - shift`; then the return address stored at `*sp`
/// (for a return address on the stack) or copied into the return-address varnode. `None`
/// where there is no default prototype or the ops run out.
pub open spec fn spec_is_call_setup(cs: CompilerSpec, ops: Seq<PcodeOp>, ft: u64) -> Option<bool> {
    match spec_prototype(cs.prototypes@, cs.default_proto@) {
        None => None,
        Some(proto) => {
            let sp = cs.stack_pointer;
            let ra = cs.return_address;
            let shift = Varnode { name: None, space: AddressSpace::Const, offset: proto.stackshift, size: sp.size };
            let ftv = Varnode { name: None, space: AddressSpace::Const, offset: ft, size: ra.size };
            if shift.offset > 0 && ops.len() == 0 {
                None
            } else if shift.offset > 0 && !spec_op_matches2(ops[0], Some(sp), OpCode::IntSub, sp, shift) {
                Some(false)
            } else {
                let rest = if shift.offset > 0 { ops.drop_first() } else { ops };
                if rest.len() == 0 {
                    None
                } else if ra.space == AddressSpace::Stack {
                    Some(spec_op_matches2(rest[0], None, OpCode::Store, sp, ftv))
                } else {
                    Some(spec_op_matches1(rest[0], ra, OpCode::Copy, ftv))
                }
            }
        },
    }
}

impl CompilerSpec {
    /// The default calling convention, if the specification has it.
    pub fn default_proto(&self) -> (r: Option<&Prototype>)
        ensures
            match spec_prototype(self.prototypes@, self.default_proto@) {
                Some(p) => r is Some && *r.unwrap() == p,
                None => r is None,
            },
    {
        let mut i = self.prototypes.len();
        assert(self.prototypes@.take(i as int) =~= self.prototypes@);
        while i > 0
            invariant
                i <= self.prototypes@.len(),
                spec_prototype(self.prototypes@, self.default_proto@) == spec_prototype(self.prototypes@.take(i as int), self.default_proto@),
            decreases i,
        {
            assert(self.prototypes@.take(i as int).drop_last() =~= self.prototypes@.take(i - 1));
            if str_eq(self.prototypes[i - 1].0.as_str(), self.default_proto.as_str()) {
                return Some(&self.prototypes[i - 1].1);
            }
            i = i - 1;
        }
        None
    }

    /// Whether the ops set up a call returning to `ft` (see `spec_is_call_setup`).
    pub fn is_call_setup(&self, ops: &[PcodeOp], ft: u64) -> (r: Option<bool>)
        ensures
            r == spec_is_call_setup(*self, ops@, ft),
    {
        let proto = match self.default_proto() {
            Some(p) => p,
            None => return None,
        };
        let sp = &self.stack_pointer;
        let ra = &self.return_address;
        let shift = Varnode::constant(proto.stackshift, sp.size);
        let ftv = Varnode::constant(ft, ra.size);
        let mut rest = ops;
        if shift.offset > 0 {
            if ops.len() == 0 {
                return None;
            }
            if op_matches2(&ops[0], Some(sp), OpCode::IntSub, sp, &shift) {
                rest = vstd::slice::slice_subrange(ops, 1, ops.len());
                assert(rest@ =~= ops@.drop_first());
            } else {
                return Some(false);
            }
        }
        if rest.len() == 0 {
            return None;
        }
        if ra.space == AddressSpace::Stack {
            Some(op_matches2(&rest[0], None, OpCode::Store, sp, &ftv))
        } else {
            Some(op_matches1(&rest[0], ra, OpCode::Copy, &ftv))
        }
    }
}

// ---------------------------------------------------------------------------------------
// Specification documents

/// A node of an XML document, in document order: its tag name (empty for anything but
/// an element), its attributes as (local name, value), and how many nodes its subtree
/// holds, itself included. The subtree of the node at `k` is the nodes `k..k + size`;
/// its first child is at `k + 1`, and each child is followed by its next sibling.
#[derive(Clone, Debug)]
pub struct XmlNode {
    pub name: String,
    pub attrs: Vec<(String, String)>,
    pub size: usize,
}

/// A node as plain values.
pub type XmlNodeV = (Seq<char>, Seq<(Seq<char>, Seq<char>)>, usize);

impl View for XmlNode {
    type V = XmlNodeV;

    open spec fn view(&self) -> XmlNodeV {
        (self.name@, self.attrs@.map_values(|a: (String, String)| (a.0@, a.1@)), self.size)
    }
}

/// The nodes as plain values.
pub open spec fn nodes_view(ns: Seq<XmlNode>) -> Seq<XmlNodeV> {
    ns.map_values(|n: XmlNode| n@)
}

/// The nodes of the XML document a text holds, in document order, as
/// `roxmltree::Document::parse` reads it; `None` where it refuses the text.
pub uninterp spec fn xml_nodes(text: Seq<char>) -> Option<Seq<XmlNodeV>>;

/// Parses an XML document with `roxmltree::Document::parse` and lists its nodes in
/// document order (`descendants` of the root), each with its tag name, its attributes
/// and the size of its subtree (`descendants().count()`). Claimed: the result is
/// `xml_nodes` of the text, a function of the text alone.
#[verifier::external_body]
fn parse_xml_nodes(text: &str) -> (r: Option<Vec<XmlNode>>)
    ensures
        match xml_nodes(text@) {
            Some(v) => r is Some && nodes_view(r->0@) == v,
            None => r is None,
        },
{
    let doc = roxmltree::Document::parse(text).ok()?;
    let mut out = Vec::new();
    for n in doc.root().descendants() {
        let attrs = n.attributes().map(|a| (a.name().to_string(), a.value().to_string())).collect();
        out.push(XmlNode { name: n.tag_name().name().to_string(), attrs, size: n.descendants().count() });
    }
    Some(out)
}

/// Whether the subtree of node `k` lies within `0..e`.
pub open spec fn node_within(d: Seq<XmlNodeV>, k: int, e: int) -> bool {
    0 <= k < d.len() && d[k].2 >= 1 && k + d[k].2 <= e && e <= d.len()
}

/// The first child from position `j` (up to `e`) whose tag name is `tag`.
pub open spec fn spec_find_child(d: Seq<XmlNodeV>, j: int, e: int, tag: Seq<char>) -> Option<int>
    decreases e - j,
{
    if j < e && node_within(d, j, e) {
        if d[j].0 == tag {
            Some(j)
        } else {
            spec_find_child(d, j + d[j].2, e, tag)
        }
    } else {
        None
    }
}

/// The first child of node `k` whose tag name is `tag` (`find`).
pub open spec fn spec_find(d: Seq<XmlNodeV>, k: int, tag: Seq<char>) -> Option<int> {
    if node_within(d, k, d.len() as int) {
        spec_find_child(d, k + 1, k + d[k].2, tag)
    } else {
        None
    }
}

/// The first node from `j` (up to `e`) whose tag name is `tag`.
pub open spec fn spec_find_from(d: Seq<XmlNodeV>, j: int, e: int, tag: Seq<char>) -> Option<int>
    decreases e - j,
{
    if 0 <= j < e && j < d.len() {
        if d[j].0 == tag {
            Some(j)
        } else {
            spec_find_from(d, j + 1, e, tag)
        }
    } else {
        None
    }
}

/// The first node of the subtree of `k` (itself first) whose tag name is `tag`
/// (`find_rec`).
pub open spec fn spec_find_rec(d: Seq<XmlNodeV>, k: int, tag: Seq<char>) -> Option<int> {
    if node_within(d, k, d.len() as int) {
        spec_find_from(d, k, k + d[k].2, tag)
    } else {
        None
    }
}

/// The value of the first attribute from `i` named `name`.
pub open spec fn spec_attr_from(attrs: Seq<(Seq<char>, Seq<char>)>, name: Seq<char>, i: int) -> Option<Seq<char>>
    decreases attrs.len() - i,
{
    if 0 <= i < attrs.len() {
        if attrs[i].0 == name {
            Some(attrs[i].1)
        } else {
            spec_attr_from(attrs, name, i + 1)
        }
    } else {
        None
    }
}

/// The value of node `k`'s attribute `name` (`attribute`).
pub open spec fn spec_attribute(d: Seq<XmlNodeV>, k: int, name: Seq<char>) -> Option<Seq<char>> {
    if 0 <= k < d.len() {
        spec_attr_from(d[k].1, name, 0)
    } else {
        None
    }
}

fn node_at(nodes: &Vec<XmlNode>, k: usize) -> (r: &XmlNode)
    requires
        k < nodes@.len(),
    ensures
        r@ == nodes_view(nodes@)[k as int],
{
    &nodes[k]
}

fn within(nodes: &Vec<XmlNode>, k: usize, e: usize) -> (r: bool)
    ensures
        r == node_within(nodes_view(nodes@), k as int, e as int),
{
    k < nodes.len() && node_at(nodes, k).size >= 1 && e <= nodes.len() && k <= e && node_at(nodes, k).size <= e - k
}

fn find_child(nodes: &Vec<XmlNode>, j: usize, e: usize, tag: &str) -> (r: Option<usize>)
    ensures
        match spec_find_child(nodes_view(nodes@), j as int, e as int, tag@) {
            Some(c) => r is Some && r.unwrap() as int == c && node_within(nodes_view(nodes@), c, nodes@.len() as int),
            None => r is None,
        },
{
    let ghost d = nodes_view(nodes@);
    let mut k = j;
    while k < e && within(nodes, k, e)
        invariant
            d == nodes_view(nodes@),
            spec_find_child(d, j as int, e as int, tag@) == spec_find_child(d, k as int, e as int, tag@),
        decreases e - k,
    {
        if str_eq(node_at(nodes, k).name.as_str(), tag) {
            return Some(k);
        }
        k = k + node_at(nodes, k).size;
    }
    None
}

/// The first child of node `k` whose tag name is `tag`.
pub fn find(nodes: &Vec<XmlNode>, k: usize, tag: &str) -> (r: Option<usize>)
    ensures
        match spec_find(nodes_view(nodes@), k as int, tag@) {
            Some(c) => r is Some && r.unwrap() as int == c && node_within(nodes_view(nodes@), c, nodes@.len() as int),
            None => r is None,
        },
{
    if !within(nodes, k, nodes.len()) {
        return None;
    }
    find_child(nodes, k + 1, k + node_at(nodes, k).size, tag)
}

/// The first node of the subtree of `k`, itself first, whose tag name is `tag`.
pub fn find_rec(nodes: &Vec<XmlNode>, k: usize, tag: &str) -> (r: Option<usize>)
    ensures
        match spec_find_rec(nodes_view(nodes@), k as int, tag@) {
            Some(c) => r is Some && r.unwrap() as int == c && 0 <= c < nodes@.len(),
            None => r is None,
        },
{
    let ghost d = nodes_view(nodes@);
    if !within(nodes, k, nodes.len()) {
        return None;
    }
    let e = k + node_at(nodes, k).size;
    let mut j = k;
    while j < e
        invariant
            d == nodes_view(nodes@),
            e <= nodes@.len(),
            k <= j,
            spec_find_rec(d, k as int, tag@) == spec_find_from(d, j as int, e as int, tag@),
        decreases e - j,
    {
        if str_eq(node_at(nodes, j).name.as_str(), tag) {
            return Some(j);
        }
        j = j + 1;
    }
    None
}

/// The value of node `k`'s first attribute named `name`.
pub fn attribute<'a>(nodes: &'a Vec<XmlNode>, k: usize, name: &str) -> (r: Option<&'a str>)
    ensures
        match spec_attribute(nodes_view(nodes@), k as int, name@) {
            Some(v) => r is Some && r->0@ == v,
            None => r is None,
        },
{
    let ghost d = nodes_view(nodes@);
    if k >= nodes.len() {
        return None;
    }
    let n = &nodes[k];
    assert(n@ == d[k as int]);
    let mut i: usize = 0;
    while i < n.attrs.len()
        invariant
            d == nodes_view(nodes@),
            n@ == d[k as int],
            spec_attribute(d, k as int, name@) == spec_attr_from(n@.1, name@, i as int),
        decreases n.attrs@.len() - i,
    {
        assert(n@.1[i as int] == (n.attrs@[i as int].0@, n.attrs@[i as int].1@));
        if str_eq(n.attrs[i].0.as_str(), name) {
            return Some(n.attrs[i].1.as_str());
        }
        i = i + 1;
    }
    None
}

/// The register named `name`, from the latest entry that names it.
pub open spec fn spec_register(regs: Seq<(String, Varnode)>, name: Seq<char>) -> Option<Varnode>
    decreases regs.len(),
{
    if regs.len() == 0 {
        None
    } else if regs.last().0@ == name {
        Some(regs.last().1)
    } else {
        spec_register(regs.drop_last(), name)
    }
}

fn register(regs: &Vec<(String, Varnode)>, name: &str) -> (r: Option<Varnode>)
    ensures
        r == spec_register(regs@, name@),
{
    let mut i = regs.len();
    assert(regs@.take(i as int) =~= regs@);
    while i > 0
        invariant
            i <= regs@.len(),
            spec_register(regs@, name@) == spec_register(regs@.take(i as int), name@),
        decreases i,
    {
        assert(regs@.take(i as int).drop_last() =~= regs@.take(i - 1));
        if str_eq(regs[i - 1].0.as_str(), name) {
            return Some(regs[i - 1].1.clone());
        }
        i = i - 1;
    }
    None
}

/// The varnode a `<register name=...>` or `<varnode space=... offset=... size=...>` tag
/// denotes: a register by name, or a location whose offset and size are integer literals.
pub open spec fn spec_varnode_tag(d: Seq<XmlNodeV>, k: int, regs: Seq<(String, Varnode)>) -> Option<Varnode> {
    if 0 <= k < d.len() && d[k].0 == "register"@ {
        match spec_attribute(d, k, "name"@) {
            Some(n) => spec_register(regs, n),
            None => None,
        }
    } else if 0 <= k < d.len() && d[k].0 == "varnode"@ {
        match (spec_attribute(d, k, "space"@), spec_attribute(d, k, "offset"@), spec_attribute(d, k, "size"@)) {
            (Some(sp), Some(o), Some(sz)) => match (spec_space_of_name(sp), spec_parse_int(o), spec_parse_int(sz)) {
                (Some(space), Some(offset), Some(size)) => Some(Varnode { name: None, space, offset, size }),
                _ => None,
            },
            _ => None,
        }
    } else {
        None
    }
}

/// Reads the varnode a `<register>` or `<varnode>` tag denotes.
pub fn parse_varnode_tag(nodes: &Vec<XmlNode>, k: usize, regs: &Vec<(String, Varnode)>) -> (r: Option<Varnode>)
    ensures
        r == spec_varnode_tag(nodes_view(nodes@), k as int, regs@),
{
    if k >= nodes.len() {
        return None;
    }
    let n = node_at(nodes, k).name.as_str();
    if str_eq(n, "register") {
        match attribute(nodes, k, "name") {
            Some(name) => register(regs, name),
            None => None,
        }
    } else if str_eq(n, "varnode") {
        match (attribute(nodes, k, "space"), attribute(nodes, k, "offset"), attribute(nodes, k, "size")) {
            (Some(sp), Some(o), Some(sz)) => match (AddressSpace::from_name(sp), try_parse_int(o), try_parse_int(sz)) {
                (Some(space), Some(offset), Some(size)) => Some(Varnode { name: None, space, offset, size }),
                _ => None,
            },
            _ => None,
        }
    } else {
        None
    }
}

/// Parameter entries grouped by metatype, as plain values.
pub open spec fn entries_view(v: Seq<(String, Vec<Varnode>)>) -> Seq<(Seq<char>, Seq<Varnode>)> {
    v.map_values(|e: (String, Vec<Varnode>)| (e.0@, e.1@))
}

/// The position of the group with the given key, from `i`.
pub open spec fn spec_key_index(acc: Seq<(Seq<char>, Seq<Varnode>)>, key: Seq<char>, i: int) -> Option<int>
    decreases acc.len() - i,
{
    if 0 <= i < acc.len() {
        if acc[i].0 == key {
            Some(i)
        } else {
            spec_key_index(acc, key, i + 1)
        }
    } else {
        None
    }
}

/// Appends a varnode to the group of its metatype, starting the group where there is
/// none yet.
pub open spec fn spec_add_entry(acc: Seq<(Seq<char>, Seq<Varnode>)>, key: Seq<char>, v: Varnode) -> Seq<(Seq<char>, Seq<Varnode>)> {
    match spec_key_index(acc, key, 0) {
        Some(i) => acc.update(i, (key, acc[i].1.push(v))),
        None => acc.push((key, seq![v])),
    }
}

proof fn lemma_key_index(acc: Seq<(Seq<char>, Seq<Varnode>)>, key: Seq<char>, i: int)
    requires
        0 <= i,
    ensures
        spec_key_index(acc, key, i) matches Some(j) ==> i <= j < acc.len() && acc[j].0 == key,
    decreases acc.len() - i,
{
    if 0 <= i < acc.len() && acc[i].0 != key {
        lemma_key_index(acc, key, i + 1);
    }
}

fn key_index(acc: &Vec<(String, Vec<Varnode>)>, key: &str) -> (r: Option<usize>)
    ensures
        match spec_key_index(entries_view(acc@), key@, 0) {
            Some(i) => r is Some && r.unwrap() as int == i && 0 <= i < acc@.len(),
            None => r is None,
        },
{
    let ghost a = entries_view(acc@);
    let mut i: usize = 0;
    while i < acc.len()
        invariant
            i <= acc@.len(),
            a == entries_view(acc@),
            spec_key_index(a, key@, 0) == spec_key_index(a, key@, i as int),
        decreases acc@.len() - i,
    {
        assert(a[i as int] == (acc@[i as int].0@, acc@[i as int].1@));
        if str_eq(acc[i].0.as_str(), key) {
            return Some(i);
        }
        i = i + 1;
    }
    None
}

fn add_entry(acc: &mut Vec<(String, Vec<Varnode>)>, key: String, v: Varnode)
    ensures
        entries_view(final(acc)@) == spec_add_entry(entries_view(old(acc)@), key@, v),
{
    let ghost a = entries_view(acc@);
    match key_index(acc, key.as_str()) {
        Some(i) => {
            proof {
                lemma_key_index(a, key@, 0);
            }
            assert(a[i as int] == (acc@[i as int].0@, acc@[i as int].1@));
            let ghost old_acc = acc@;
            let mut entry = acc.remove(i);
            let ghost e0 = entry;
            entry.1.push(v);
            assert(entry.0 == e0.0 && entry.1@ == e0.1@.push(v));
            acc.insert(i, entry);
            assert(acc@ =~= old_acc.update(i as int, entry));
            assert(a[i as int].0 == key@);
            assert forall|m: int| 0 <= m < acc@.len() implies #[trigger] entries_view(acc@)[m] == a.update(
                i as int,
                (key@, a[i as int].1.push(v)),
            )[m] by {
                if m != i {
                    assert(acc@[m] == old_acc[m]);
                }
            }
            assert(entries_view(acc@) =~= a.update(i as int, (key@, a[i as int].1.push(v))));
        },
        None => {
            let mut group: Vec<Varnode> = Vec::new();
            group.push(v);
            acc.push((key, group));
            assert(entries_view(acc@) =~= a.push((key@, seq![v])));
        },
    }
}

/// The metatype of a parameter entry: its `metatype` attribute, `int` without one.
pub open spec fn spec_metatype(d: Seq<XmlNodeV>, c: int) -> Seq<char> {
    match spec_attribute(d, c, "metatype"@) {
        Some(m) => m,
        None => "int"@,
    }
}

/// The parameter entries after taking in child `c`: a `<pentry>` with a `<register>`
/// child adds that register to its metatype's group; other children add nothing.
pub open spec fn spec_pentry_step(d: Seq<XmlNodeV>, c: int, regs: Seq<(String, Varnode)>, acc: Seq<(Seq<char>, Seq<Varnode>)>) -> Option<Seq<(Seq<char>, Seq<Varnode>)>> {
    if d[c].0 != "pentry"@ {
        Some(acc)
    } else {
        match spec_find(d, c, "register"@) {
            None => Some(acc),
            Some(r) => match spec_varnode_tag(d, r, regs) {
                None => None,
                Some(v) => Some(spec_add_entry(acc, spec_metatype(d, c), v)),
            },
        }
    }
}

/// The parameter entries of the children from `j` (up to `e`), added to `acc`.
pub open spec fn spec_pentries_from(d: Seq<XmlNodeV>, j: int, e: int, regs: Seq<(String, Varnode)>, acc: Seq<(Seq<char>, Seq<Varnode>)>) -> Option<Seq<(Seq<char>, Seq<Varnode>)>>
    decreases e - j,
{
    if j < e && node_within(d, j, e) {
        match spec_pentry_step(d, j, regs, acc) {
            Some(a) => spec_pentries_from(d, j + d[j].2, e, regs, a),
            None => None,
        }
    } else {
        Some(acc)
    }
}

/// The parameter entries of a node's children, by metatype; none without the node.
pub open spec fn spec_pentries(d: Seq<XmlNodeV>, k: Option<int>, regs: Seq<(String, Varnode)>) -> Option<Seq<(Seq<char>, Seq<Varnode>)>> {
    match k {
        Some(k) => if node_within(d, k, d.len() as int) {
            spec_pentries_from(d, k + 1, k + d[k].2, regs, seq![])
        } else {
            Some(seq![])
        },
        None => Some(seq![]),
    }
}

/// Reads the parameter entries of a node's children (`<pentry>` tags), grouped by
/// metatype.
pub fn parse_pentries(nodes: &Vec<XmlNode>, k: Option<usize>, regs: &Vec<(String, Varnode)>) -> (r: Option<Vec<(String, Vec<Varnode>)>>)
    ensures
        match spec_pentries(nodes_view(nodes@), match k { Some(x) => Some(x as int), None => None }, regs@) {
            Some(a) => r is Some && entries_view(r->0@) == a,
            None => r is None,
        },
{
    let ghost d = nodes_view(nodes@);
    let mut acc: Vec<(String, Vec<Varnode>)> = Vec::new();
    let kk = match k {
        Some(x) => x,
        None => {
            assert(entries_view(acc@) =~= seq![]);
            return Some(acc);
        },
    };
    if !within(nodes, kk, nodes.len()) {
        assert(entries_view(acc@) =~= seq![]);
        return Some(acc);
    }
    let e = kk + node_at(nodes, kk).size;
    let mut j = kk + 1;
    assert(entries_view(acc@) =~= seq![]);
    while j < e && within(nodes, j, e)
        invariant
            d == nodes_view(nodes@),
            e <= nodes@.len(),
            k == Some(kk),
            spec_pentries(d, Some(kk as int), regs@) == spec_pentries_from(d, j as int, e as int, regs@, entries_view(acc@)),
            spec_pentries(nodes_view(nodes@), match k { Some(x) => Some(x as int), None => None }, regs@)
                == spec_pentries_from(d, j as int, e as int, regs@, entries_view(acc@)),
        decreases e - j,
    {
        if str_eq(node_at(nodes, j).name.as_str(), "pentry") {
            let metatype = match attribute(nodes, j, "metatype") {
                Some(m) => m.to_owned(),
                None => "int".to_owned(),
            };
            match find(nodes, j, "register") {
                Some(r) => match parse_varnode_tag(nodes, r, regs) {
                    Some(v) => add_entry(&mut acc, metatype, v),
                    None => return None,
                },
                None => {},
            }
        }
        j = j + node_at(nodes, j).size;
    }
    Some(acc)
}

/// The one-byte varnodes that a varnode covers.
pub open spec fn spec_atoms(v: Varnode) -> Set<Varnode> {
    Set::new(|a: Varnode| a == (Varnode { name: None, space: v.space, offset: a.offset, size: 1 })
        && v.offset <= a.offset < v.offset + v.size)
}

/// The one-byte varnodes covered by the children from `j` (up to `e`) that are tags,
/// added to `acc`; `None` where a child is not a varnode tag or its end passes 64 bits.
pub open spec fn spec_atoms_from(d: Seq<XmlNodeV>, j: int, e: int, regs: Seq<(String, Varnode)>, acc: Set<Varnode>) -> Option<Set<Varnode>>
    decreases e - j,
{
    if j < e && node_within(d, j, e) {
        if d[j].0 == Seq::<char>::empty() {
            spec_atoms_from(d, j + d[j].2, e, regs, acc)
        } else {
            match spec_varnode_tag(d, j, regs) {
                Some(v) => if v.offset + v.size <= u64::MAX {
                    spec_atoms_from(d, j + d[j].2, e, regs, acc.union(spec_atoms(v)))
                } else {
                    None
                },
                None => None,
            }
        }
    } else {
        Some(acc)
    }
}

/// The one-byte varnodes covered by a node's children; none without the node.
pub open spec fn spec_varnode_set(d: Seq<XmlNodeV>, k: Option<int>, regs: Seq<(String, Varnode)>) -> Option<Set<Varnode>> {
    match k {
        Some(k) => if node_within(d, k, d.len() as int) {
            spec_atoms_from(d, k + 1, k + d[k].2, regs, Set::empty())
        } else {
            Some(Set::empty())
        },
        None => Some(Set::empty()),
    }
}

/// Whether every varnode of a list is a one-byte varnode without a name, none twice.
pub open spec fn atom_list(v: Seq<Varnode>) -> bool {
    &&& v.no_duplicates()
    &&& forall|i: int| 0 <= i < v.len() ==> (#[trigger] v[i]).name is None && v[i].size == 1
}

fn add_atoms(acc: &mut Vec<Varnode>, v: &Varnode)
    requires
        atom_list(old(acc)@),
        v.offset + v.size <= u64::MAX,
    ensures
        atom_list(final(acc)@),
        final(acc)@.to_set() == old(acc)@.to_set().union(spec_atoms(*v)),
{
    let ghost start = acc@.to_set();
    let end = v.offset + v.size;
    let mut off = v.offset;
    while off < end
        invariant
            v.offset <= off <= end,
            end == v.offset + v.size,
            atom_list(acc@),
            acc@.to_set() == start.union(spec_atoms(*v).filter(|a: Varnode| a.offset < off)),
        decreases end - off,
    {
        let a = v.atom(off);
        let mut present = false;
        let mut i: usize = 0;
        while i < acc.len()
            invariant
                i <= acc@.len(),
                atom_list(acc@),
                a == (Varnode { name: None, space: v.space, offset: off, size: 1 }),
                present == (exists|m: int| 0 <= m < i && acc@[m] == a),
            decreases acc@.len() - i,
        {
            if acc[i].space == a.space && acc[i].offset == a.offset {
                assert(acc@[i as int] == a);
                present = true;
            }
            i = i + 1;
        }
        let ghost before = acc@;
        if !present {
            acc.push(a);
            assert(acc@.no_duplicates()) by {
                assert forall|x: int, y: int| 0 <= x < y < acc@.len() implies acc@[x] != acc@[y] by {
                    if y == acc@.len() - 1 {
                        assert(acc@[y] == a);
                        assert(acc@[x] == before[x]);
                    } else {
                        assert(acc@[x] == before[x]);
                        assert(acc@[y] == before[y]);
                    }
                }
            }
            assert(acc@.to_set() =~= before.to_set().insert(a)) by {
                assert forall|x: Varnode| acc@.to_set().contains(x) <==> before.to_set().insert(a).contains(x) by {
                    if acc@.to_set().contains(x) {
                        let m = choose|m: int| 0 <= m < acc@.len() && acc@[m] == x;
                        if m < before.len() {
                            assert(before[m] == x);
                        }
                    }
                    if before.to_set().contains(x) {
                        let m = choose|m: int| 0 <= m < before.len() && before[m] == x;
                        assert(acc@[m] == x);
                    }
                    if x == a {
                        assert(acc@[acc@.len() - 1] == a);
                    }
                }
            }
        } else {
            assert(before.to_set().contains(a));
        }
        assert(acc@.to_set() =~= start.union(spec_atoms(*v).filter(|x: Varnode| x.offset < off + 1)));
        off = off + 1;
    }
    assert(spec_atoms(*v).filter(|a: Varnode| a.offset < off) =~= spec_atoms(*v));
}

/// Reads the one-byte varnodes covered by a node's children, each a varnode tag.
pub fn parse_varnodes(nodes: &Vec<XmlNode>, k: Option<usize>, regs: &Vec<(String, Varnode)>) -> (r: Option<Vec<Varnode>>)
    ensures
        match spec_varnode_set(nodes_view(nodes@), match k { Some(x) => Some(x as int), None => None }, regs@) {
            Some(a) => r is Some && r->0@.to_set() == a && atom_list(r->0@),
            None => r is None,
        },
{
    let ghost d = nodes_view(nodes@);
    let mut acc: Vec<Varnode> = Vec::new();
    assert(acc@.to_set() =~= Set::<Varnode>::empty());
    let kk = match k {
        Some(x) => x,
        None => return Some(acc),
    };
    if !within(nodes, kk, nodes.len()) {
        return Some(acc);
    }
    let e = kk + node_at(nodes, kk).size;
    let mut j = kk + 1;
    while j < e && within(nodes, j, e)
        invariant
            d == nodes_view(nodes@),
            e <= nodes@.len(),
            atom_list(acc@),
            k == Some(kk),
            spec_varnode_set(d, Some(kk as int), regs@) == spec_atoms_from(d, j as int, e as int, regs@, acc@.to_set()),
            spec_varnode_set(nodes_view(nodes@), match k { Some(x) => Some(x as int), None => None }, regs@)
                == spec_atoms_from(d, j as int, e as int, regs@, acc@.to_set()),
        decreases e - j,
    {
        if node_at(nodes, j).name.as_str().is_empty() {
            assert(d[j as int].0 =~= Seq::<char>::empty());
        } else {
            assert(d[j as int].0 != Seq::<char>::empty()) by {
                assert(d[j as int].0.len() != 0);
            }
            match parse_varnode_tag(nodes, j, regs) {
                Some(v) => {
                    if v.offset > u64::MAX - v.size {
                        assert(spec_atoms_from(d, j as int, e as int, regs@, acc@.to_set()) is None);
                        assert(spec_varnode_set(nodes_view(nodes@), match k { Some(x) => Some(x as int), None => None }, regs@) is None);
                        return None;
                    }
                    add_atoms(&mut acc, &v);
                },
                None => return None,
            }
        }
        j = j + node_at(nodes, j).size;
    }
    Some(acc)
}

/// A decimal number as `str::parse` reads it, zero where the text is missing or does not
/// read as one.
pub open spec fn spec_u64_or0(o: Option<Seq<char>>) -> u64 {
    match o {
        Some(s) => match spec_from_str_radix(s, 10) {
            Some(v) => v,
            None => 0,
        },
        None => 0,
    }
}

fn u64_or0(o: Option<&str>) -> (r: u64)
    ensures
        r == spec_u64_or0(match o { Some(s) => Some(s@), None => None }),
{
    match o {
        Some(s) => match try_u64dec(s) {
            Some(v) => v,
            None => 0,
        },
        None => 0,
    }
}

/// Whether the prototype at node `k` can be read: its inputs, outputs, killed and
/// unaffected varnodes.
pub open spec fn spec_proto_ok(d: Seq<XmlNodeV>, k: int, regs: Seq<(String, Varnode)>) -> bool {
    &&& spec_pentries(d, spec_find(d, k, "input"@), regs) is Some
    &&& spec_pentries(d, spec_find(d, k, "output"@), regs) is Some
    &&& spec_varnode_set(d, spec_find(d, k, "killedbycall"@), regs) is Some
    &&& spec_varnode_set(d, spec_find(d, k, "unaffected"@), regs) is Some
}

/// The prototype at node `k`: its name (empty without one), extra pop and stack shift
/// (zero where missing or unreadable), its `<input>` and `<output>` parameter entries by
/// metatype, and the bytes of its `<killedbycall>` and `<unaffected>` varnodes.
pub open spec fn spec_proto(d: Seq<XmlNodeV>, k: int, regs: Seq<(String, Varnode)>, p: Prototype) -> bool {
    &&& spec_proto_ok(d, k, regs)
    &&& p.name@ == match spec_attribute(d, k, "name"@) {
        Some(n) => n,
        None => Seq::<char>::empty(),
    }
    &&& p.extrapop == spec_u64_or0(spec_attribute(d, k, "extrapop"@))
    &&& p.stackshift == spec_u64_or0(spec_attribute(d, k, "stackshift"@))
    &&& entries_view(p.inputs@) == spec_pentries(d, spec_find(d, k, "input"@), regs)->0
    &&& entries_view(p.outputs@) == spec_pentries(d, spec_find(d, k, "output"@), regs)->0
    &&& p.killed@.to_set() == spec_varnode_set(d, spec_find(d, k, "killedbycall"@), regs)->0
    &&& atom_list(p.killed@)
    &&& p.unaff@.to_set() == spec_varnode_set(d, spec_find(d, k, "unaffected"@), regs)->0
    &&& atom_list(p.unaff@)
}

impl Prototype {
    /// Reads the prototype at node `k` (see `spec_proto`).
    pub fn new(nodes: &Vec<XmlNode>, k: usize, regs: &Vec<(String, Varnode)>) -> (r: Option<Prototype>)
        ensures
            r is Some == spec_proto_ok(nodes_view(nodes@), k as int, regs@),
            r is Some ==> spec_proto(nodes_view(nodes@), k as int, regs@, r->0),
    {
        let name = match attribute(nodes, k, "name") {
            Some(n) => n.to_owned(),
            None => String::new(),
        };
        let extrapop = u64_or0(attribute(nodes, k, "extrapop"));
        let stackshift = u64_or0(attribute(nodes, k, "stackshift"));
        let inputs = match parse_pentries(nodes, find(nodes, k, "input"), regs) {
            Some(x) => x,
            None => return None,
        };
        let outputs = match parse_pentries(nodes, find(nodes, k, "output"), regs) {
            Some(x) => x,
            None => return None,
        };
        let killed = match parse_varnodes(nodes, find(nodes, k, "killedbycall"), regs) {
            Some(x) => x,
            None => return None,
        };
        let unaff = match parse_varnodes(nodes, find(nodes, k, "unaffected"), regs) {
            Some(x) => x,
            None => return None,
        };
        Some(Prototype { name, extrapop, stackshift, inputs, outputs, killed, unaff })
    }
}

/// The first child from `j` (up to `e`) that is an element.
pub open spec fn spec_first_element(d: Seq<XmlNodeV>, j: int, e: int) -> Option<int>
    decreases e - j,
{
    if j < e && node_within(d, j, e) {
        if d[j].0 != Seq::<char>::empty() {
            Some(j)
        } else {
            spec_first_element(d, j + d[j].2, e)
        }
    } else {
        None
    }
}

fn first_element(nodes: &Vec<XmlNode>, k: usize) -> (r: Option<usize>)
    ensures
        match (if node_within(nodes_view(nodes@), k as int, nodes@.len() as int) {
            spec_first_element(nodes_view(nodes@), k + 1, k + nodes_view(nodes@)[k as int].2)
        } else {
            None
        }) {
            Some(c) => r is Some && r.unwrap() as int == c,
            None => r is None,
        },
{
    let ghost d = nodes_view(nodes@);
    if !within(nodes, k, nodes.len()) {
        return None;
    }
    let e = k + node_at(nodes, k).size;
    let mut j = k + 1;
    while j < e && within(nodes, j, e)
        invariant
            d == nodes_view(nodes@),
            e == k + d[k as int].2,
            spec_first_element(d, k + 1, e as int) == spec_first_element(d, j as int, e as int),
        decreases e - j,
    {
        if !node_at(nodes, j).name.as_str().is_empty() {
            assert(d[j as int].0 != Seq::<char>::empty()) by {
                assert(d[j as int].0.len() != 0);
            }
            return Some(j);
        }
        assert(d[j as int].0 =~= Seq::<char>::empty());
        j = j + node_at(nodes, j).size;
    }
    None
}

/// The nodes of the subtree from `j` (up to `e`) named `prototype`, in document order.
pub open spec fn spec_protos_from(d: Seq<XmlNodeV>, j: int, e: int) -> Seq<int>
    decreases e - j,
{
    if 0 <= j < e && j < d.len() {
        if d[j].0 == "prototype"@ {
            seq![j] + spec_protos_from(d, j + 1, e)
        } else {
            spec_protos_from(d, j + 1, e)
        }
    } else {
        seq![]
    }
}

/// The parts of the compiler specification at node `k`: the stack pointer (the register
/// named by the first `<stackpointer>`), the return address (the first element inside
/// the first `<returnaddress>`), and the node of the default prototype (the
/// `<prototype>` child of the first `<default_proto>`).
pub open spec fn spec_cspec_parts(d: Seq<XmlNodeV>, k: int, regs: Seq<(String, Varnode)>) -> Option<(Varnode, Varnode, int)> {
    match spec_find_rec(d, k, "stackpointer"@) {
        None => None,
        Some(sp_e) => match spec_attribute(d, sp_e, "register"@) {
            None => None,
            Some(sp_name) => match spec_register(regs, sp_name) {
                None => None,
                Some(sp) => match spec_find_rec(d, k, "returnaddress"@) {
                    None => None,
                    Some(ra_e) => match (if node_within(d, ra_e, d.len() as int) {
                        spec_first_element(d, ra_e + 1, ra_e + d[ra_e].2)
                    } else {
                        None
                    }) {
                        None => None,
                        Some(c) => match spec_varnode_tag(d, c, regs) {
                            None => None,
                            Some(ra) => match spec_find_rec(d, k, "default_proto"@) {
                                None => None,
                                Some(dp) => match spec_find(d, dp, "prototype"@) {
                                    None => None,
                                    Some(pe) => Some((sp, ra, pe)),
                                },
                            },
                        },
                    },
                },
            },
        },
    }
}

/// The prototypes of the subtree of `k`, in document order.
pub open spec fn spec_cspec_protos(d: Seq<XmlNodeV>, k: int) -> Seq<int> {
    spec_protos_from(d, k, k + d[k].2)
}

/// Whether the compiler specification at node `k` can be read.
pub open spec fn spec_cspec_ok(d: Seq<XmlNodeV>, k: int, regs: Seq<(String, Varnode)>) -> bool {
    &&& spec_cspec_parts(d, k, regs) is Some
    &&& spec_proto_ok(d, (spec_cspec_parts(d, k, regs)->0).2, regs)
    &&& forall|i: int| 0 <= i < spec_cspec_protos(d, k).len() ==> spec_proto_ok(d, #[trigger] spec_cspec_protos(d, k)[i], regs)
}

/// The compiler specification at node `k`: its stack pointer and return address, the name
/// of its default prototype, and its prototypes by name: the default prototype first,
/// then every prototype of the subtree in document order (a later one of the same name
/// taking the place of an earlier one).
pub open spec fn spec_cspec(d: Seq<XmlNodeV>, k: int, regs: Seq<(String, Varnode)>, cs: CompilerSpec) -> bool {
    let (sp, ra, pe) = spec_cspec_parts(d, k, regs)->0;
    let ps = spec_cspec_protos(d, k);
    &&& spec_cspec_ok(d, k, regs)
    &&& cs.stack_pointer == sp
    &&& cs.return_address == ra
    &&& cs.prototypes@.len() == ps.len() + 1
    &&& spec_proto(d, pe, regs, cs.prototypes@[0].1)
    &&& cs.default_proto@ == cs.prototypes@[0].1.name@
    &&& forall|i: int| 0 <= i < cs.prototypes@.len() ==> (#[trigger] cs.prototypes@[i]).0@ == cs.prototypes@[i].1.name@
    &&& forall|i: int| 0 <= i < ps.len() ==> spec_proto(d, ps[i], regs, #[trigger] cs.prototypes@[i + 1].1)
}

impl CompilerSpec {
    /// Reads the compiler specification at node `k` (see `spec_cspec`).
    pub fn new(nodes: &Vec<XmlNode>, k: usize, regs: &Vec<(String, Varnode)>) -> (r: Option<CompilerSpec>)
        ensures
            r is Some == spec_cspec_ok(nodes_view(nodes@), k as int, regs@),
            r is Some ==> spec_cspec(nodes_view(nodes@), k as int, regs@, r->0),
    {
        let ghost d = nodes_view(nodes@);
        let sp_e = match find_rec(nodes, k, "stackpointer") {
            Some(x) => x,
            None => return None,
        };
        let stack_pointer = match attribute(nodes, sp_e, "register") {
            Some(n) => match register(regs, n) {
                Some(v) => v,
                None => return None,
            },
            None => return None,
        };
        let ra_e = match find_rec(nodes, k, "returnaddress") {
            Some(x) => x,
            None => return None,
        };
        let return_address = match first_element(nodes, ra_e) {
            Some(c) => match parse_varnode_tag(nodes, c, regs) {
                Some(v) => v,
                None => return None,
            },
            None => return None,
        };
        let dp = match find_rec(nodes, k, "default_proto") {
            Some(x) => x,
            None => return None,
        };
        let pe = match find(nodes, dp, "prototype") {
            Some(x) => x,
            None => return None,
        };
        let ghost pe_i = pe as int;
        assert(spec_cspec_parts(d, k as int, regs@) == Some((stack_pointer, return_address, pe_i)));
        let default_proto = match Prototype::new(nodes, pe, regs) {
            Some(p) => p,
            None => return None,
        };
        let mut prototypes: Vec<(String, Prototype)> = Vec::new();
        let default_name = default_proto.name.clone();
        prototypes.push((default_proto.name.clone(), default_proto));
        if !within(nodes, k, nodes.len()) {
            return None;
        }
        let e = k + node_at(nodes, k).size;
        let ghost ps = spec_cspec_protos(d, k as int);
        let ghost mut got: Seq<int> = seq![];
        let mut j = k;
        while j < e
            invariant
                d == nodes_view(nodes@),
                k <= j <= e,
                e == k + d[k as int].2,
                e <= nodes@.len(),
                ps == spec_cspec_protos(d, k as int),
                ps == got + spec_protos_from(d, j as int, e as int),
                prototypes@.len() == got.len() + 1,
                spec_proto(d, pe_i, regs@, prototypes@[0].1),
                default_name@ == prototypes@[0].1.name@,
                forall|i: int| 0 <= i < prototypes@.len() ==> (#[trigger] prototypes@[i]).0@ == prototypes@[i].1.name@,
                forall|i: int| 0 <= i < got.len() ==> spec_proto(d, got[i], regs@, #[trigger] prototypes@[i + 1].1),
                forall|i: int| 0 <= i < got.len() ==> spec_proto_ok(d, #[trigger] got[i], regs@),
                forall|i: int| 0 <= i < got.len() ==> 0 <= #[trigger] got[i] < j,
            decreases e - j,
        {
            if str_eq(node_at(nodes, j).name.as_str(), "prototype") {
                let p = match Prototype::new(nodes, j, regs) {
                    Some(p) => p,
                    None => {
                        proof {
                            assert(spec_protos_from(d, j as int, e as int) == seq![j as int] + spec_protos_from(d, j + 1, e as int));
                            assert(ps[got.len() as int] == j);
                        }
                        return None;
                    },
                };
                proof {
                    assert(spec_protos_from(d, j as int, e as int) == seq![j as int] + spec_protos_from(d, j + 1, e as int));
                    assert(got + (seq![j as int] + spec_protos_from(d, j + 1, e as int)) =~= got.push(j as int) + spec_protos_from(d, j + 1, e as int));
                    got = got.push(j as int);
                }
                prototypes.push((p.name.clone(), p));
            }
            j = j + 1;
        }
        assert(spec_protos_from(d, j as int, e as int) =~= seq![]);
        assert(got =~= ps);
        Some(CompilerSpec { stack_pointer, return_address, default_proto: default_name, prototypes })
    }
}

/// The context defaults of the children from `j` (up to `e`), added to `acc`: each
/// `<set>` with a name and a value gives the value, an integer literal cut to 32 bits;
/// `None` where such a value does not read.
pub open spec fn spec_defaults_from(d: Seq<XmlNodeV>, j: int, e: int, acc: Seq<(Seq<char>, u32)>) -> Option<Seq<(Seq<char>, u32)>>
    decreases e - j,
{
    if j < e && node_within(d, j, e) {
        if d[j].0 == "set"@ {
            match (spec_attribute(d, j, "name"@), spec_attribute(d, j, "val"@)) {
                (Some(n), Some(v)) => match spec_parse_int(v) {
                    Some(x) => spec_defaults_from(d, j + d[j].2, e, acc.push((n, x as u32))),
                    None => None,
                },
                _ => spec_defaults_from(d, j + d[j].2, e, acc),
            }
        } else {
            spec_defaults_from(d, j + d[j].2, e, acc)
        }
    } else {
        Some(acc)
    }
}

/// The context defaults of the processor specification at node `k`: those of the
/// `<context_set>` child of the first `<context_data>`, none without them.
pub open spec fn spec_defaults(d: Seq<XmlNodeV>, k: int) -> Option<Seq<(Seq<char>, u32)>> {
    match spec_find_rec(d, k, "context_data"@) {
        Some(cd) => match spec_find(d, cd, "context_set"@) {
            Some(cs) => spec_defaults_from(d, cs + 1, cs + d[cs].2, seq![]),
            None => Some(seq![]),
        },
        None => Some(seq![]),
    }
}

/// The program counter of the processor specification at node `k`: the register named
/// by the first `<programcounter>`.
pub open spec fn spec_pc(d: Seq<XmlNodeV>, k: int, regs: Seq<(String, Varnode)>) -> Option<Varnode> {
    match spec_find_rec(d, k, "programcounter"@) {
        Some(p) => match spec_attribute(d, p, "register"@) {
            Some(n) => spec_register(regs, n),
            None => None,
        },
        None => None,
    }
}

/// The defaults as plain values.
pub open spec fn defaults_view(v: Seq<(String, u32)>) -> Seq<(Seq<char>, u32)> {
    v.map_values(|e: (String, u32)| (e.0@, e.1))
}

impl ProcessorSpec {
    /// Reads the processor specification at node `k`: its program counter and context
    /// defaults.
    pub fn new(nodes: &Vec<XmlNode>, k: usize, regs: &Vec<(String, Varnode)>) -> (r: Option<ProcessorSpec>)
        ensures
            r is Some == (spec_pc(nodes_view(nodes@), k as int, regs@) is Some && spec_defaults(nodes_view(nodes@), k as int) is Some),
            r is Some ==> r->0.pc_reg == spec_pc(nodes_view(nodes@), k as int, regs@)->0
                && defaults_view(r->0.defaults@) == spec_defaults(nodes_view(nodes@), k as int)->0,
    {
        let ghost d = nodes_view(nodes@);
        let pc_reg = match find_rec(nodes, k, "programcounter") {
            Some(p) => match attribute(nodes, p, "register") {
                Some(n) => match register(regs, n) {
                    Some(v) => v,
                    None => return None,
                },
                None => return None,
            },
            None => return None,
        };
        let mut defaults: Vec<(String, u32)> = Vec::new();
        assert(defaults_view(defaults@) =~= seq![]);
        let cd = match find_rec(nodes, k, "context_data") {
            Some(cd) => cd,
            None => return Some(ProcessorSpec { pc_reg, defaults }),
        };
        let cs = match find(nodes, cd, "context_set") {
            Some(cs) => cs,
            None => return Some(ProcessorSpec { pc_reg, defaults }),
        };
        if !within(nodes, cs, nodes.len()) {
            return Some(ProcessorSpec { pc_reg, defaults });
        }
        let e = cs + node_at(nodes, cs).size;
        let mut j = cs + 1;
        while j < e && within(nodes, j, e)
            invariant
                d == nodes_view(nodes@),
                cs < nodes@.len(),
                e == cs + d[cs as int].2,
                spec_defaults(d, k as int) == spec_defaults_from(d, j as int, e as int, defaults_view(defaults@)),
            decreases e - j,
        {
            if str_eq(node_at(nodes, j).name.as_str(), "set") {
                match (attribute(nodes, j, "name"), attribute(nodes, j, "val")) {
                    (Some(n), Some(v)) => match try_parse_int(v) {
                        Some(x) => {
                            let ghost before = defaults_view(defaults@);
                            defaults.push((n.to_owned(), #[verifier::truncate] (x as u32)));
                            assert(defaults_view(defaults@) =~= before.push((n@, x as u32)));
                        },
                        None => return None,
                    },
                    _ => {},
                }
            }
            j = j + node_at(nodes, j).size;
        }
        Some(ProcessorSpec { pc_reg, defaults })
    }
}

impl ProcessorSpec {
    /// Reads a processor specification from its text (see `ProcessorSpec::new`, at the
    /// document's root).
    pub fn from_text(text: &str, regs: &Vec<(String, Varnode)>) -> (r: Option<ProcessorSpec>)
        ensures
            match xml_nodes(text@) {
                Some(d) => {
                    &&& r is Some == (spec_pc(d, 0, regs@) is Some && spec_defaults(d, 0) is Some)
                    &&& r is Some ==> r->0.pc_reg == spec_pc(d, 0, regs@)->0 && defaults_view(r->0.defaults@)
                        == spec_defaults(d, 0)->0
                },
                None => r is None,
            },
    {
        match parse_xml_nodes(text) {
            Some(nodes) => ProcessorSpec::new(&nodes, 0, regs),
            None => None,
        }
    }
}

impl CompilerSpec {
    /// Reads a compiler specification from its text (see `CompilerSpec::new`, at the
    /// document's root).
    pub fn from_text(text: &str, regs: &Vec<(String, Varnode)>) -> (r: Option<CompilerSpec>)
        ensures
            match xml_nodes(text@) {
                Some(d) => r is Some == spec_cspec_ok(d, 0, regs@) && (r is Some ==> spec_cspec(d, 0, regs@, r->0)),
                None => r is None,
            },
    {
        match parse_xml_nodes(text) {
            Some(nodes) => CompilerSpec::new(&nodes, 0, regs),
            None => None,
        }
    }
}

/// What a language definition names: its id, the file of its processor specification,
/// and its compilers with the files of their specifications.
#[derive(Clone, Debug)]
pub struct LanguageFiles {
    pub id: String,
    pub processor_spec: String,
    pub compilers: Vec<(String, String)>,
}

/// Pairs of strings as plain values.
pub open spec fn pairs_view(v: Seq<(String, String)>) -> Seq<(Seq<char>, Seq<char>)> {
    v.map_values(|e: (String, String)| (e.0@, e.1@))
}

/// The compilers of the children from `j` (up to `e`), added to `acc`: each `<compiler>`
/// with its name and specification file; `None` where one lacks either.
pub open spec fn spec_compilers_from(d: Seq<XmlNodeV>, j: int, e: int, acc: Seq<(Seq<char>, Seq<char>)>) -> Option<Seq<(Seq<char>, Seq<char>)>>
    decreases e - j,
{
    if j < e && node_within(d, j, e) {
        if d[j].0 == "compiler"@ {
            match (spec_attribute(d, j, "name"@), spec_attribute(d, j, "spec"@)) {
                (Some(n), Some(f)) => spec_compilers_from(d, j + d[j].2, e, acc.push((n, f))),
                _ => None,
            }
        } else {
            spec_compilers_from(d, j + d[j].2, e, acc)
        }
    } else {
        Some(acc)
    }
}

/// What the `<language>` at node `k` names: `id`, `processorspec`, and its compilers.
pub open spec fn spec_language_files(d: Seq<XmlNodeV>, k: int) -> Option<(Seq<char>, Seq<char>, Seq<(Seq<char>, Seq<char>)>)> {
    match (spec_attribute(d, k, "id"@), spec_attribute(d, k, "processorspec"@)) {
        (Some(id), Some(ps)) => if node_within(d, k, d.len() as int) {
            match spec_compilers_from(d, k + 1, k + d[k].2, seq![]) {
                Some(cs) => Some((id, ps, cs)),
                None => None,
            }
        } else {
            None
        },
        _ => None,
    }
}

/// Reads what the `<language>` at node `k` names.
pub fn language_files(nodes: &Vec<XmlNode>, k: usize) -> (r: Option<LanguageFiles>)
    ensures
        match spec_language_files(nodes_view(nodes@), k as int) {
            Some((id, ps, cs)) => r is Some && r->0.id@ == id && r->0.processor_spec@ == ps && pairs_view(r->0.compilers@) == cs,
            None => r is None,
        },
{
    let ghost d = nodes_view(nodes@);
    let (id, processor_spec) = match (attribute(nodes, k, "id"), attribute(nodes, k, "processorspec")) {
        (Some(a), Some(b)) => (a.to_owned(), b.to_owned()),
        _ => return None,
    };
    if !within(nodes, k, nodes.len()) {
        return None;
    }
    let e = k + node_at(nodes, k).size;
    let mut compilers: Vec<(String, String)> = Vec::new();
    assert(pairs_view(compilers@) =~= seq![]);
    let mut j = k + 1;
    while j < e && within(nodes, j, e)
        invariant
            d == nodes_view(nodes@),
            spec_language_files(d, k as int) == match spec_compilers_from(d, j as int, e as int, pairs_view(compilers@)) {
                Some(cs) => Some((id@, processor_spec@, cs)),
                None => None,
            },
        decreases e - j,
    {
        if str_eq(node_at(nodes, j).name.as_str(), "compiler") {
            match (attribute(nodes, j, "name"), attribute(nodes, j, "spec")) {
                (Some(n), Some(f)) => {
                    let ghost before = pairs_view(compilers@);
                    compilers.push((n.to_owned(), f.to_owned()));
                    assert(pairs_view(compilers@) =~= before.push((n@, f@)));
                },
                _ => return None,
            }
        }
        j = j + node_at(nodes, j).size;
    }
    Some(LanguageFiles { id, processor_spec, compilers })
}

/// The first child from `j` (up to `e`) that is a `<language>` whose `id` is `lid`.
pub open spec fn spec_language_from(d: Seq<XmlNodeV>, j: int, e: int, lid: Seq<char>) -> Option<int>
    decreases e - j,
{
    if j < e && node_within(d, j, e) {
        if d[j].0 == "language"@ && spec_attribute(d, j, "id"@) == Some(lid) {
            Some(j)
        } else {
            spec_language_from(d, j + d[j].2, e, lid)
        }
    } else {
        None
    }
}

/// The `<language>` of the given id in a language definitions document: the first such
/// child of its `<language_definitions>`.
pub open spec fn spec_find_language(d: Seq<XmlNodeV>, lid: Seq<char>) -> Option<int> {
    match spec_find(d, 0, "language_definitions"@) {
        Some(defs) => spec_language_from(d, defs + 1, defs + d[defs].2, lid),
        None => None,
    }
}

fn language_child(nodes: &Vec<XmlNode>, defs: usize, lid: &str) -> (r: Option<usize>)
    requires
        node_within(nodes_view(nodes@), defs as int, nodes@.len() as int),
    ensures
        match spec_language_from(nodes_view(nodes@), defs + 1, defs + nodes_view(nodes@)[defs as int].2, lid@) {
            Some(c) => r is Some && r.unwrap() as int == c,
            None => r is None,
        },
{
    let ghost d = nodes_view(nodes@);
    let n = nodes.len();
    let e = defs + node_at(nodes, defs).size;
    let mut j = defs + 1;
    while j < e && within(nodes, j, e)
        invariant
            d == nodes_view(nodes@),
            e == defs + d[defs as int].2,
            spec_language_from(d, defs + 1, e as int, lid@) == spec_language_from(d, j as int, e as int, lid@),
        decreases e - j,
    {
        if str_eq(node_at(nodes, j).name.as_str(), "language") {
            match attribute(nodes, j, "id") {
                Some(id) => if str_eq(id, lid) {
                    return Some(j);
                },
                None => {},
            }
        }
        j = j + node_at(nodes, j).size;
    }
    None
}

/// Reads what the language of the given id names, from the text of a language
/// definitions (`.ldefs`) document.
pub fn find_language(ldefs: &str, language_id: &str) -> (r: Option<LanguageFiles>)
    ensures
        match xml_nodes(ldefs@) {
            Some(d) => match spec_find_language(d, language_id@) {
                Some(c) => match spec_language_files(d, c) {
                    Some((id, ps, cs)) => r is Some && r->0.id@ == id && r->0.processor_spec@ == ps && pairs_view(r->0.compilers@) == cs,
                    None => r is None,
                },
                None => r is None,
            },
            None => r is None,
        },
{
    let nodes = match parse_xml_nodes(ldefs) {
        Some(n) => n,
        None => return None,
    };
    let defs = match find(&nodes, 0, "language_definitions") {
        Some(x) => x,
        None => return None,
    };
    match language_child(&nodes, defs, language_id) {
        Some(c) => language_files(&nodes, c),
        None => None,
    }
}

/// The compiled specification file of the first child from `j` (up to `e`) that is a
/// `<language>` with both an `id` and a `slafile`, whose id is `lid`.
pub open spec fn spec_sla_from(d: Seq<XmlNodeV>, j: int, e: int, lid: Seq<char>) -> Option<Seq<char>>
    decreases e - j,
{
    if j < e && node_within(d, j, e) {
        if d[j].0 == "language"@ && spec_attribute(d, j, "id"@) == Some(lid) && spec_attribute(d, j, "slafile"@) is Some {
            spec_attribute(d, j, "slafile"@)
        } else {
            spec_sla_from(d, j + d[j].2, e, lid)
        }
    } else {
        None
    }
}

/// Reads the compiled specification file of the language of the given id, from the text
/// of a language definitions document.
pub fn find_sla_file(ldefs: &str, language_id: &str) -> (r: Option<String>)
    ensures
        match xml_nodes(ldefs@) {
            Some(d) => match spec_find(d, 0, "language_definitions"@) {
                Some(defs) => match spec_sla_from(d, defs + 1, defs + d[defs].2, language_id@) {
                    Some(f) => r is Some && r->0@ == f,
                    None => r is None,
                },
                None => r is None,
            },
            None => r is None,
        },
{
    let nodes = match parse_xml_nodes(ldefs) {
        Some(n) => n,
        None => return None,
    };
    let ghost d = nodes_view(nodes@);
    let defs = match find(&nodes, 0, "language_definitions") {
        Some(x) => x,
        None => return None,
    };
    let e = defs + node_at(&nodes, defs).size;
    let mut j = defs + 1;
    while j < e && within(&nodes, j, e)
        invariant
            d == nodes_view(nodes@),
            e == defs + d[defs as int].2,
            spec_sla_from(d, defs + 1, e as int, language_id@) == spec_sla_from(d, j as int, e as int, language_id@),
            xml_nodes(ldefs@) == Some(d),
            spec_find(d, 0, "language_definitions"@) == Some(defs as int),
        decreases e - j,
    {
        if str_eq(node_at(&nodes, j).name.as_str(), "language") {
            match (attribute(&nodes, j, "id"), attribute(&nodes, j, "slafile")) {
                (Some(id), Some(f)) => if str_eq(id, language_id) {
                    return Some(f.to_owned());
                },
                _ => {},
            }
        }
        j = j + node_at(&nodes, j).size;
    }
    None
}

/// Whether two prototypes hold the same values.
pub open spec fn same_proto(a: Prototype, b: Prototype) -> bool {
    &&& a.name@ == b.name@
    &&& a.extrapop == b.extrapop
    &&& a.stackshift == b.stackshift
    &&& entries_view(a.inputs@) == entries_view(b.inputs@)
    &&& entries_view(a.outputs@) == entries_view(b.outputs@)
    &&& a.killed@ == b.killed@
    &&& a.unaff@ == b.unaff@
}

/// Whether two compiler specifications hold the same values.
pub open spec fn same_cspec(a: CompilerSpec, b: CompilerSpec) -> bool {
    &&& a.stack_pointer == b.stack_pointer
    &&& a.return_address == b.return_address
    &&& a.default_proto@ == b.default_proto@
    &&& a.prototypes@.len() == b.prototypes@.len()
    &&& forall|i: int| 0 <= i < a.prototypes@.len() ==> (#[trigger] a.prototypes@[i]).0@ == b.prototypes@[i].0@
        && same_proto(a.prototypes@[i].1, b.prototypes@[i].1)
}

fn copy_varnodes(v: &Vec<Varnode>) -> (r: Vec<Varnode>)
    ensures
        r@ == v@,
{
    let mut r: Vec<Varnode> = Vec::new();
    let mut i: usize = 0;
    while i < v.len()
        invariant
            i <= v@.len(),
            r@ == v@.take(i as int),
        decreases v@.len() - i,
    {
        r.push(v[i].clone());
        assert(v@.take(i as int).push(v@[i as int]) =~= v@.take(i + 1));
        i = i + 1;
    }
    assert(v@.take(v@.len() as int) =~= v@);
    r
}

fn copy_entries(v: &Vec<(String, Vec<Varnode>)>) -> (r: Vec<(String, Vec<Varnode>)>)
    ensures
        entries_view(r@) == entries_view(v@),
{
    let mut r: Vec<(String, Vec<Varnode>)> = Vec::new();
    let mut i: usize = 0;
    while i < v.len()
        invariant
            i <= v@.len(),
            entries_view(r@) == entries_view(v@).take(i as int),
        decreases v@.len() - i,
    {
        let ghost before = entries_view(r@);
        r.push((v[i].0.clone(), copy_varnodes(&v[i].1)));
        assert(entries_view(r@) =~= before.push((v@[i as int].0@, v@[i as int].1@)));
        assert(entries_view(v@).take(i as int).push(entries_view(v@)[i as int]) =~= entries_view(v@).take(i + 1));
        i = i + 1;
    }
    assert(entries_view(v@).take(v@.len() as int) =~= entries_view(v@));
    r
}

fn copy_proto(p: &Prototype) -> (r: Prototype)
    ensures
        same_proto(r, *p),
{
    Prototype {
        name: p.name.clone(),
        extrapop: p.extrapop,
        stackshift: p.stackshift,
        inputs: copy_entries(&p.inputs),
        outputs: copy_entries(&p.outputs),
        killed: copy_varnodes(&p.killed),
        unaff: copy_varnodes(&p.unaff),
    }
}

fn copy_cspec(c: &CompilerSpec) -> (r: CompilerSpec)
    ensures
        same_cspec(r, *c),
{
    let mut prototypes: Vec<(String, Prototype)> = Vec::new();
    let mut i: usize = 0;
    while i < c.prototypes.len()
        invariant
            i <= c.prototypes@.len(),
            prototypes@.len() == i,
            forall|m: int| 0 <= m < i ==> (#[trigger] prototypes@[m]).0@ == c.prototypes@[m].0@
                && same_proto(prototypes@[m].1, c.prototypes@[m].1),
        decreases c.prototypes@.len() - i,
    {
        prototypes.push((c.prototypes[i].0.clone(), copy_proto(&c.prototypes[i].1)));
        i = i + 1;
    }
    CompilerSpec {
        stack_pointer: c.stack_pointer.clone(),
        return_address: c.return_address.clone(),
        default_proto: c.default_proto.clone(),
        prototypes,
    }
}

/// The compiler specification of the given name, from the latest entry that names it.
pub open spec fn spec_compiler(entries: Seq<(String, CompilerSpec)>, name: Seq<char>) -> Option<CompilerSpec>
    decreases entries.len(),
{
    if entries.len() == 0 {
        None
    } else if entries.last().0@ == name {
        Some(entries.last().1)
    } else {
        spec_compiler(entries.drop_last(), name)
    }
}

impl Language {
    /// A language of the given id with its processor specification and compiler
    /// specifications by name; the one named `compiler_id` is the language's own. `None`
    /// where no compiler specification has that name.
    pub fn new(id: String, pspec: ProcessorSpec, cspecs: Vec<(String, CompilerSpec)>, compiler_id: &str) -> (r: Option<Language>)
        ensures
            r is Some == spec_compiler(cspecs@, compiler_id@) is Some,
            r is Some ==> r->0.name == id && r->0.pspec == pspec && r->0.cspecs == cspecs && same_cspec(
                r->0.cspec,
                spec_compiler(cspecs@, compiler_id@)->0,
            ),
    {
        let mut i = cspecs.len();
        assert(cspecs@.take(i as int) =~= cspecs@);
        while i > 0
            invariant
                i <= cspecs@.len(),
                spec_compiler(cspecs@, compiler_id@) == spec_compiler(cspecs@.take(i as int), compiler_id@),
            decreases i,
        {
            assert(cspecs@.take(i as int).drop_last() =~= cspecs@.take(i - 1));
            if str_eq(cspecs[i - 1].0.as_str(), compiler_id) {
                let cspec = copy_cspec(&cspecs[i - 1].1);
                return Some(Language { name: id, pspec, cspecs, cspec });
            }
            i = i - 1;
        }
        None
    }
}

} // verus!
