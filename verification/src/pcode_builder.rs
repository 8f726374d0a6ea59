//! Building the p-code of a resolved instruction from its constructors' templates, and
//! its assembly text from their print commands.
use vstd::prelude::*;
use crate::sleigh::address::{Address, AddressSpace, spec_space_of_name};
use crate::sleigh::varnode::{Varnode, VarnodeMap, spec_map_lookup, spec_sign_extend64, spec_varnode_text, same_location};
use crate::sleigh::opcode::{OpCode, spec_opcode_of_name, spec_is_conditional};
use crate::sleigh::seqnum::{SeqNum, spec_next};
use crate::sleigh::op::{Op, PcodeOp};
use crate::sla_parser::{
    SleighLanguage, ConstTemplate, HandleExpr, HandleTemplate, VarnodeTemplate, OpTemplate,
    ConsTemplate, FixupType, SymbolBody, PrintCommand, spec_handle_index,
};
use crate::symbol_resolver::MatchedSymbol;
use crate::text::{push_str, push_hex, spec_hex, str_eq};

verus! {

/// What a constant template evaluates to.
#[derive(Debug)]
pub enum VarnodeValue<'a> {
    Space(AddressSpace),
    String(&'a String),
    Int(u64),
    Rel(u64),
    Op(Varnode),
}

/// A value exported by a constructor that lives in memory: the space it is read from, the
/// varnode pointing at it, and the temporary that receives it (dummy where no load is
/// needed).
#[derive(Debug)]
pub struct Handle {
    pub space: AddressSpace,
    pub pointer: Varnode,
    pub temp: Varnode,
}

impl Handle {
    /// Whether the value has to be loaded through the pointer.
    pub fn needs_resolving(&self) -> (r: bool)
        ensures
            r == (self.temp.space != AddressSpace::Dummy),
    {
        self.temp.space != AddressSpace::Dummy
    }

    /// The printed form of the handle: its pointer, or `*(temp)pointer` where the value has
    /// to be loaded.
    pub fn to_string(&self) -> (r: String)
        ensures
            r@ == spec_handle_text(*self),
    {
        if !self.needs_resolving() {
            self.pointer.to_string()
        } else {
            let mut s = String::new();
            push_str(&mut s, "*(");
            let t = self.temp.to_string();
            push_str(&mut s, t.as_str());
            push_str(&mut s, ")");
            let p = self.pointer.to_string();
            push_str(&mut s, p.as_str());
            assert(s@ =~= spec_handle_text(*self));
            s
        }
    }
}

/// The printed form of a handle (see `Handle::to_string`).
pub open spec fn spec_handle_text(h: Handle) -> Seq<char> {
    if h.temp.space == AddressSpace::Dummy {
        spec_varnode_text(h.pointer)
    } else {
        "*("@ + spec_varnode_text(h.temp) + ")"@ + spec_varnode_text(h.pointer)
    }
}

/// The printed form of an operand object: `DUMMY`, a varnode, or a handle.
pub open spec fn spec_object_text(o: PcodeObject) -> Seq<char> {
    match o {
        PcodeObject::Dummy => "DUMMY"@,
        PcodeObject::Varnode(vn) => spec_varnode_text(vn),
        PcodeObject::Handle(h) => spec_handle_text(h),
    }
}

impl PcodeObject {
    /// The printed form of the object (see `spec_object_text`).
    pub fn to_string(&self) -> (r: String)
        ensures
            r@ == spec_object_text(*self),
    {
        match self {
            PcodeObject::Dummy => {
                let mut s = String::new();
                push_str(&mut s, "DUMMY");
                assert(s@ =~= "DUMMY"@);
                s
            },
            PcodeObject::Varnode(vn) => vn.to_string(),
            PcodeObject::Handle(h) => h.to_string(),
        }
    }
}

/// What an operand of a constructor stands for while its p-code is built.
#[derive(Debug)]
pub enum PcodeObject {
    Dummy,
    Varnode(Varnode),
    Handle(Handle),
}

/// The instruction being built: its address, length in bits and language.
pub struct BuildContext<'a> {
    pub pc: &'a Address,
    pub bit_len: usize,
    pub lang: &'a SleighLanguage,
    /// The names that literals relative to the instruction's start and end carry.
    pub fixup_names: (String, String),
}

/// The index that the latest entry for `name` gives in a space table.
pub open spec fn spec_space_index(spaces: Seq<(String, u64)>, name: Seq<char>) -> Option<u64>
    decreases spaces.len(),
{
    if spaces.len() == 0 {
        None
    } else if spaces.last().0@ == name {
        Some(spaces.last().1)
    } else {
        spec_space_index(spaces.drop_last(), name)
    }
}

fn space_index(spaces: &Vec<(String, u64)>, name: &String) -> (r: Option<u64>)
    ensures
        r == spec_space_index(spaces@, name@),
{
    let mut i = spaces.len();
    assert(spaces@.take(i as int) =~= spaces@);
    while i > 0
        invariant
            i <= spaces@.len(),
            spec_space_index(spaces@, name@) == spec_space_index(spaces@.take(i as int), name@),
        decreases i,
    {
        assert(spaces@.take(i as int).drop_last() =~= spaces@.take(i - 1));
        if str_eq(spaces[i - 1].0.as_str(), name.as_str()) {
            return Some(spaces[i - 1].1);
        }
        i = i - 1;
    }
    None
}

/// The varnode `addend` bytes into `vn`, keeping its size; in the register space it takes
/// the register name of its location.
pub open spec fn spec_subpiece(vn: Varnode, addend: u64, vmap: VarnodeMap) -> Varnode {
    Varnode {
        name: if vn.space == AddressSpace::Register {
            spec_map_lookup(vmap.entries@, (vn.offset + addend) as u64, vn.size)
        } else {
            None
        },
        space: vn.space,
        offset: (vn.offset + addend) as u64,
        size: vn.size,
    }
}

/// The varnode an operand object stands for in a template: the varnode itself, a handle's
/// temporary where it must be loaded, else the handle's pointer; `None` for the dummy.
pub open spec fn spec_object_varnode(obj: PcodeObject) -> Option<Varnode> {
    match obj {
        PcodeObject::Varnode(vn) => Some(vn),
        PcodeObject::Handle(h) => if h.temp.space != AddressSpace::Dummy {
            Some(h.temp)
        } else {
            Some(h.pointer)
        },
        PcodeObject::Dummy => None,
    }
}

/// The value of a constant template for the instruction at `pc` of `bit_len` bits.
pub open spec fn spec_build_value<'a>(t: &'a ConstTemplate, objs: Seq<PcodeObject>, pc: Address, bit_len: usize, vmap: VarnodeMap) -> Option<(VarnodeValue<'a>, Option<FixupType>)> {
    match t {
        ConstTemplate::SpaceId(space) => Some((VarnodeValue::String(space), None)),
        ConstTemplate::Val(val) => Some((VarnodeValue::Int(*val), None)),
        ConstTemplate::Handle((idx, expr)) => if (*idx as int) < objs.len() {
            match spec_object_varnode(objs[*idx as int]) {
                None => None,
                Some(vn) => match expr {
                    Some(HandleExpr::OffsetPlus(addend)) => if vn.offset + *addend <= u64::MAX {
                        Some((VarnodeValue::Op(spec_subpiece(vn, *addend as u64, vmap)), None))
                    } else {
                        None
                    },
                    None => Some((VarnodeValue::Op(vn), None)),
                },
            }
        } else {
            None
        },
        ConstTemplate::Relative(idx) => Some((VarnodeValue::Rel(*idx as u64), None)),
        ConstTemplate::Start => Some((VarnodeValue::Int(pc.offset), Some(FixupType::Start))),
        ConstTemplate::Next => if pc.offset + bit_len / 8 <= u64::MAX {
            Some((VarnodeValue::Int((pc.offset + bit_len / 8) as u64), Some(FixupType::End)))
        } else {
            None
        },
        ConstTemplate::CurSpace => Some((VarnodeValue::Space(AddressSpace::Ram), None)),
        ConstTemplate::CurSpaceSize => Some((VarnodeValue::Int(8), None)),
    }
}

fn build_value<'a>(const_tpl: &'a ConstTemplate, objs: &[PcodeObject], ctx: &BuildContext) -> (r: Option<(VarnodeValue<'a>, Option<FixupType>)>)
    ensures
        r == spec_build_value(const_tpl, objs@, *ctx.pc, ctx.bit_len, ctx.lang.varnode_map),
{
    match const_tpl {
        ConstTemplate::SpaceId(space) => Some((VarnodeValue::String(space), None)),
        ConstTemplate::Val(val) => Some((VarnodeValue::Int(*val), None)),
        ConstTemplate::Handle((idx, expr)) => {
            let ix = *idx as usize;
            if ix >= objs.len() {
                return None;
            }
            let vn: &Varnode = match &objs[ix] {
                PcodeObject::Varnode(vn) => vn,
                PcodeObject::Handle(h) => if h.needs_resolving() {
                    &h.temp
                } else {
                    &h.pointer
                },
                PcodeObject::Dummy => return None,
            };
            match expr {
                Some(HandleExpr::OffsetPlus(addend)) => {
                    if vn.offset > u64::MAX - *addend as u64 {
                        return None;
                    }
                    Some((VarnodeValue::Op(vn.truncate(*addend as u64, vn.size, &ctx.lang.varnode_map)), None))
                },
                None => Some((VarnodeValue::Op(vn.clone()), None)),
            }
        },
        ConstTemplate::Relative(idx) => Some((VarnodeValue::Rel(*idx as u64), None)),
        ConstTemplate::Start => Some((VarnodeValue::Int(ctx.pc.offset), Some(FixupType::Start))),
        ConstTemplate::Next => {
            let len = (ctx.bit_len / 8) as u64;
            if ctx.pc.offset > u64::MAX - len {
                return None;
            }
            Some((VarnodeValue::Int(ctx.pc.offset + len), Some(FixupType::End)))
        },
        ConstTemplate::CurSpace => Some((VarnodeValue::Space(AddressSpace::Ram), None)),
        ConstTemplate::CurSpaceSize => Some((VarnodeValue::Int(8), None)),
    }
}

/// A constant template read as an offset.
pub open spec fn spec_build_offset(t: &ConstTemplate, objs: Seq<PcodeObject>, pc: Address, bit_len: usize, lang: SleighLanguage) -> Option<(u64, Option<FixupType>)> {
    match spec_build_value(t, objs, pc, bit_len, lang.varnode_map) {
        None => None,
        Some((v, ft)) => match v {
            VarnodeValue::Int(x) => Some((x, ft)),
            VarnodeValue::Op(op) => Some((op.offset, ft)),
            VarnodeValue::Space(_) => Some((8, ft)),
            VarnodeValue::String(s) => match spec_space_index(lang.spaces@, s@) {
                Some(i) => Some((i, ft)),
                None => None,
            },
            VarnodeValue::Rel(ix) => Some((ix, ft)),
        },
    }
}

/// A constant template read as a size.
pub open spec fn spec_build_size(t: &ConstTemplate, objs: Seq<PcodeObject>, pc: Address, bit_len: usize, lang: SleighLanguage) -> Option<(u64, Option<FixupType>)> {
    match spec_build_value(t, objs, pc, bit_len, lang.varnode_map) {
        None => None,
        Some((v, ft)) => match v {
            VarnodeValue::Int(x) => Some((x, ft)),
            VarnodeValue::Op(op) => Some((op.size, ft)),
            VarnodeValue::Space(_) => Some((8, ft)),
            VarnodeValue::String(s) => match spec_space_index(lang.spaces@, s@) {
                Some(i) => Some((i, ft)),
                None => None,
            },
            VarnodeValue::Rel(_) => None,
        },
    }
}

/// A constant template read as an address space.
pub open spec fn spec_build_space(t: &ConstTemplate, objs: Seq<PcodeObject>, pc: Address, bit_len: usize, lang: SleighLanguage) -> Option<(AddressSpace, Option<FixupType>)> {
    match spec_build_value(t, objs, pc, bit_len, lang.varnode_map) {
        None => None,
        Some((v, ft)) => match v {
            VarnodeValue::String(s) => match spec_space_of_name(s@) {
                Some(sp) => Some((sp, ft)),
                None => None,
            },
            VarnodeValue::Space(sp) => Some((sp, ft)),
            VarnodeValue::Op(op) => Some((op.space, ft)),
            VarnodeValue::Int(x) => if x == 0 {
                Some((AddressSpace::Dummy, ft))
            } else {
                None
            },
            VarnodeValue::Rel(_) => None,
        },
    }
}

fn build_offset(const_tpl: &ConstTemplate, objs: &[PcodeObject], ctx: &BuildContext) -> (r: Option<(u64, Option<FixupType>)>)
    ensures
        r == spec_build_offset(const_tpl, objs@, *ctx.pc, ctx.bit_len, *ctx.lang),
{
    match build_value(const_tpl, objs, ctx) {
        None => None,
        Some((val, ft)) => match val {
            VarnodeValue::Int(sz) => Some((sz, ft)),
            VarnodeValue::Op(op) => Some((op.offset, ft)),
            VarnodeValue::Space(_) => Some((8, ft)),
            VarnodeValue::String(s) => match space_index(&ctx.lang.spaces, s) {
                Some(i) => Some((i, ft)),
                None => None,
            },
            VarnodeValue::Rel(ix) => Some((ix, ft)),
        },
    }
}

fn build_size(const_tpl: &ConstTemplate, objs: &[PcodeObject], ctx: &BuildContext) -> (r: Option<(u64, Option<FixupType>)>)
    ensures
        r == spec_build_size(const_tpl, objs@, *ctx.pc, ctx.bit_len, *ctx.lang),
{
    match build_value(const_tpl, objs, ctx) {
        None => None,
        Some((val, ft)) => match val {
            VarnodeValue::Int(sz) => Some((sz, ft)),
            VarnodeValue::Op(op) => Some((op.size, ft)),
            VarnodeValue::Space(_) => Some((8, ft)),
            VarnodeValue::String(s) => match space_index(&ctx.lang.spaces, s) {
                Some(i) => Some((i, ft)),
                None => None,
            },
            VarnodeValue::Rel(_) => None,
        },
    }
}

fn build_space(const_tpl: &ConstTemplate, objs: &[PcodeObject], ctx: &BuildContext) -> (r: Option<(AddressSpace, Option<FixupType>)>)
    ensures
        r == spec_build_space(const_tpl, objs@, *ctx.pc, ctx.bit_len, *ctx.lang),
{
    match build_value(const_tpl, objs, ctx) {
        None => None,
        Some((val, ft)) => match val {
            VarnodeValue::String(s) => match AddressSpace::from_name(s.as_str()) {
                Some(sp) => Some((sp, ft)),
                None => None,
            },
            VarnodeValue::Space(spc) => Some((spc, ft)),
            VarnodeValue::Op(op) => Some((op.space, ft)),
            VarnodeValue::Int(x) => if x == 0 {
                Some((AddressSpace::Dummy, ft))
            } else {
                None
            },
            VarnodeValue::Rel(_) => None,
        },
    }
}

/// `val` sign-extended from `from` bytes and then cut to `to` bytes.
pub open spec fn spec_sign_extend(val: u64, from: u64, to: u64) -> u64 {
    let s1 = (64 - from * 8) as u64;
    let s2 = (64 - to * 8) as u64;
    let r = (((val << s1) as i64) >> s1) as u64;
    (r << s2) >> s2
}

/// Sign-extends the low `from` bytes of `val` and keeps the low `to` bytes of the result.
pub fn sign_extend(val: u64, from: u64, to: u64) -> (r: u64)
    requires
        1 <= from <= 8,
        1 <= to <= 8,
    ensures
        r == spec_sign_extend(val, from, to),
{
    let mut result = val;
    let shift = 64 - from * 8;
    result = (((result << shift) as i64) >> shift) as u64;
    let shift = 64 - to * 8;
    result = (result << shift) >> shift;
    result
}

fn string_of(s: &str) -> (r: String)
    ensures
        r@ == s@,
{
    let mut r = String::new();
    push_str(&mut r, s);
    assert(Seq::<char>::empty() + s@ =~= s@);
    r
}

/// The name a varnode built from templates carries: its register name in the register
/// space, else a marker of the fixup it is relative to.
pub open spec fn spec_built_name(space: AddressSpace, offset: u64, size: u64, fixup: Option<FixupType>, vmap: VarnodeMap, fx: (String, String)) -> Option<String> {
    if space == AddressSpace::Register {
        spec_map_lookup(vmap.entries@, offset, size)
    } else {
        match fixup {
            Some(FixupType::Start) => Some(fx.0),
            Some(FixupType::End) => Some(fx.1),
            None => None,
        }
    }
}

/// The varnode an operand object gives where a template names the operand directly: the
/// varnode itself, or a handle's pointer.
pub open spec fn spec_direct_varnode(obj: PcodeObject) -> Option<Varnode> {
    match obj {
        PcodeObject::Varnode(vn) => Some(vn),
        PcodeObject::Handle(h) => Some(h.pointer),
        PcodeObject::Dummy => None,
    }
}

/// Whether the space and offset templates both name operand `ix`.
pub open spec fn spec_same_handle(a: ConstTemplate, b: ConstTemplate) -> Option<u32> {
    match (a, b) {
        (ConstTemplate::Handle((i1, _)), ConstTemplate::Handle((i2, _))) => if i1 == i2 {
            Some(i1)
        } else {
            None
        },
        _ => None,
    }
}

/// Whether a template names an operand's varnode as it is: the space and size are 0 and
/// the offset is the operand, or space and offset are the same operand and the size 0.
pub open spec fn spec_direct_index(t: VarnodeTemplate) -> Option<u32> {
    match (t.space_template, t.offset_template, t.size_template) {
        (ConstTemplate::Val(0), ConstTemplate::Handle((ix, _)), ConstTemplate::Val(0)) => Some(ix),
        (ConstTemplate::Handle((ix, _)), ConstTemplate::Handle((ix2, _)), ConstTemplate::Val(0)) => if ix == ix2 {
            Some(ix)
        } else {
            None
        },
        _ => None,
    }
}

fn direct_index(t: &VarnodeTemplate) -> (r: Option<u32>)
    ensures
        r == spec_direct_index(*t),
{
    match (&t.space_template, &t.offset_template, &t.size_template) {
        (ConstTemplate::Val(a), ConstTemplate::Handle((ix, _)), ConstTemplate::Val(b)) => if *a == 0 && *b == 0 {
            Some(*ix)
        } else {
            None
        },
        (ConstTemplate::Handle((ix, _)), ConstTemplate::Handle((ix2, _)), ConstTemplate::Val(b)) => if *ix == *ix2 && *b == 0 {
            Some(*ix)
        } else {
            None
        },
        _ => None,
    }
}

/// The varnode a varnode template builds to.
pub open spec fn spec_build_varnode(t: VarnodeTemplate, objs: Seq<PcodeObject>, pc: Address, bit_len: usize, lang: SleighLanguage, fx: (String, String)) -> Option<Varnode> {
    match spec_direct_index(t) {
        Some(ix) => if (ix as int) < objs.len() {
            spec_direct_varnode(objs[ix as int])
        } else {
            None
        },
        None => match (
            spec_build_space(&t.space_template, objs, pc, bit_len, lang),
            spec_build_offset(&t.offset_template, objs, pc, bit_len, lang),
            spec_build_size(&t.size_template, objs, pc, bit_len, lang),
        ) {
            (Some((space, f1)), Some((offset, f2)), Some((size, f3))) => {
                let fixup = if f1 is Some { f1 } else if f2 is Some { f2 } else { f3 };
                let sext = space == AddressSpace::Const && spec_same_handle(t.space_template, t.offset_template) is Some
                    && (spec_same_handle(t.space_template, t.offset_template).unwrap() as int) < objs.len()
                    && objs[spec_same_handle(t.space_template, t.offset_template).unwrap() as int] is Varnode;
                if sext {
                    let from = objs[spec_same_handle(t.space_template, t.offset_template).unwrap() as int]->Varnode_0.size;
                    if 1 <= from <= 8 && 1 <= size <= 8 {
                        Some(Varnode { name: spec_built_name(space, offset, size, fixup, lang.varnode_map, fx), space, offset: spec_sign_extend(offset, from, size), size })
                    } else {
                        None
                    }
                } else {
                    Some(Varnode { name: spec_built_name(space, offset, size, fixup, lang.varnode_map, fx), space, offset, size })
                }
            },
            _ => None,
        },
    }
}

/// Whether two optional names hold the same characters.
pub open spec fn same_name(a: Option<String>, b: Option<String>) -> bool {
    match (a, b) {
        (Some(x), Some(y)) => x@ == y@,
        (None, None) => true,
        _ => false,
    }
}

/// Whether two varnodes agree in every field, names compared by their characters.
pub open spec fn same_varnode(a: Varnode, b: Varnode) -> bool {
    same_name(a.name, b.name) && a.space == b.space && a.offset == b.offset && a.size == b.size
}

fn same_handle(a: &ConstTemplate, b: &ConstTemplate) -> (r: Option<u32>)
    ensures
        r == spec_same_handle(*a, *b),
{
    match (a, b) {
        (ConstTemplate::Handle((i1, _)), ConstTemplate::Handle((i2, _))) => if *i1 == *i2 {
            Some(*i1)
        } else {
            None
        },
        _ => None,
    }
}

fn built_name(space: AddressSpace, offset: u64, size: u64, fixup: Option<FixupType>, vmap: &VarnodeMap, fx: &(String, String)) -> (r: Option<String>)
    ensures
        r == spec_built_name(space, offset, size, fixup, *vmap, *fx),
{
    if space == AddressSpace::Register {
        vmap.get(offset, size)
    } else {
        match fixup {
            Some(FixupType::Start) => Some(fx.0.clone()),
            Some(FixupType::End) => Some(fx.1.clone()),
            None => None,
        }
    }
}

fn build_varnode(vnode_tpl: &VarnodeTemplate, objs: &[PcodeObject], ctx: &BuildContext) -> (r: Option<Varnode>)
    ensures
        r == spec_build_varnode(*vnode_tpl, objs@, *ctx.pc, ctx.bit_len, *ctx.lang, ctx.fixup_names),
{
    if let Some(ix) = direct_index(vnode_tpl) {
        if ix as usize >= objs.len() {
            return None;
        }
        return match &objs[ix as usize] {
            PcodeObject::Varnode(vn) => Some(vn.clone()),
            PcodeObject::Handle(h) => Some(h.pointer.clone()),
            PcodeObject::Dummy => None,
        };
    }
    let (space, f1) = match build_space(&vnode_tpl.space_template, objs, ctx) {
        Some(x) => x,
        None => return None,
    };
    let (mut offset, f2) = match build_offset(&vnode_tpl.offset_template, objs, ctx) {
        Some(x) => x,
        None => return None,
    };
    let (size, f3) = match build_size(&vnode_tpl.size_template, objs, ctx) {
        Some(x) => x,
        None => return None,
    };
    let fixup = if f1.is_some() {
        f1
    } else if f2.is_some() {
        f2
    } else {
        f3
    };
    let name = built_name(space, offset, size, fixup, &ctx.lang.varnode_map, &ctx.fixup_names);
    if space == AddressSpace::Const {
        if let Some(ix) = same_handle(&vnode_tpl.space_template, &vnode_tpl.offset_template) {
            if (ix as usize) < objs.len() {
                if let PcodeObject::Varnode(vn) = &objs[ix as usize] {
                    if vn.size < 1 || vn.size > 8 || size < 1 || size > 8 {
                        return None;
                    }
                    offset = sign_extend(offset, vn.size, size);
                }
            }
        }
    }
    Some(Varnode { name, space, offset, size })
}

/// The object a handle template builds to (see the cases of `build_handle`).
pub open spec fn spec_build_handle(t: HandleTemplate, objs: Seq<PcodeObject>, pc: Address, bit_len: usize, lang: SleighLanguage, fx: (String, String)) -> Option<PcodeObject> {
    match (
        spec_build_space(&t.space_template, objs, pc, bit_len, lang),
        spec_build_size(&t.size_template, objs, pc, bit_len, lang),
        spec_build_varnode(t.pointer_template, objs, pc, bit_len, lang, fx),
        spec_build_space(&t.temp_space_template, objs, pc, bit_len, lang),
        spec_build_offset(&t.temp_offset_template, objs, pc, bit_len, lang),
    ) {
        (Some((deref_space, _)), Some((deref_size, _)), Some(pointer), Some((temp_space, _)), Some((temp_offset, _))) => {
            let temp = Varnode { name: None, space: temp_space, offset: temp_offset, size: deref_size };
            if deref_space == AddressSpace::Ram && pointer.space == AddressSpace::Const {
                Some(PcodeObject::Varnode(Varnode { name: pointer.name, space: deref_space, offset: pointer.offset, size: pointer.size }))
            } else if temp_space != AddressSpace::Dummy && deref_space != AddressSpace::Const {
                Some(PcodeObject::Handle(Handle { space: deref_space, pointer, temp }))
            } else if deref_space == AddressSpace::Const {
                let size = if deref_size >= pointer.size { deref_size } else { pointer.size };
                if deref_size > 0 && pointer.size > 0 {
                    if pointer.size <= 8 && deref_size <= 8 {
                        Some(PcodeObject::Varnode(Varnode { name: None, space: deref_space, offset: spec_sign_extend(pointer.offset, pointer.size, deref_size), size }))
                    } else {
                        None
                    }
                } else {
                    Some(PcodeObject::Varnode(Varnode { name: None, space: deref_space, offset: pointer.offset, size }))
                }
            } else if deref_space != AddressSpace::Dummy {
                Some(PcodeObject::Varnode(Varnode { name: spec_map_lookup(lang.varnode_map.entries@, pointer.offset, deref_size), space: deref_space, offset: pointer.offset, size: deref_size }))
            } else {
                Some(PcodeObject::Varnode(pointer))
            }
        },
        _ => None,
    }
}

fn build_handle(handle_tpl: &HandleTemplate, objs: &[PcodeObject], ctx: &BuildContext) -> (r: Option<PcodeObject>)
    ensures
        r == spec_build_handle(*handle_tpl, objs@, *ctx.pc, ctx.bit_len, *ctx.lang, ctx.fixup_names),
{
    let deref_space = match build_space(&handle_tpl.space_template, objs, ctx) {
        Some(x) => x.0,
        None => return None,
    };
    let deref_size = match build_size(&handle_tpl.size_template, objs, ctx) {
        Some(x) => x.0,
        None => return None,
    };
    let pointer = match build_varnode(&handle_tpl.pointer_template, objs, ctx) {
        Some(x) => x,
        None => return None,
    };
    let temp_space = match build_space(&handle_tpl.temp_space_template, objs, ctx) {
        Some(x) => x.0,
        None => return None,
    };
    let temp_offset = match build_offset(&handle_tpl.temp_offset_template, objs, ctx) {
        Some(x) => x.0,
        None => return None,
    };
    let temp = Varnode { name: None, space: temp_space, offset: temp_offset, size: deref_size };
    if deref_space == AddressSpace::Ram && pointer.space == AddressSpace::Const {
        Some(PcodeObject::Varnode(Varnode { name: pointer.name, space: deref_space, offset: pointer.offset, size: pointer.size }))
    } else if !temp.space.is_dummy() && deref_space != AddressSpace::Const {
        Some(PcodeObject::Handle(Handle { space: deref_space, pointer, temp }))
    } else if deref_space == AddressSpace::Const {
        let mut offset = pointer.offset;
        if deref_size > 0 && pointer.size > 0 {
            if pointer.size > 8 || deref_size > 8 {
                return None;
            }
            offset = sign_extend(offset, pointer.size, deref_size);
        }
        let size = if deref_size >= pointer.size { deref_size } else { pointer.size };
        Some(PcodeObject::Varnode(Varnode { name: None, space: deref_space, offset, size }))
    } else if deref_space != AddressSpace::Dummy {
        let name = ctx.lang.varnode_map.get(pointer.offset, deref_size);
        Some(PcodeObject::Varnode(Varnode { name, space: deref_space, offset: pointer.offset, size: deref_size }))
    } else {
        Some(PcodeObject::Varnode(pointer))
    }
}

/// Whether `is_negative` can be asked of the varnode: constants must be 1 to 8 bytes.
pub open spec fn spec_neg_ok(v: Varnode) -> bool {
    v.space != AddressSpace::Const || (1 <= v.size <= 8)
}

/// A constant whose top bit (of its size) is set.
pub open spec fn spec_is_neg(v: Varnode) -> bool {
    v.space == AddressSpace::Const && (v.offset >> ((v.size * 8 - 1) as u64)) != 0
}

/// The varnode with its offset negated (two's complement of the sign-extended offset).
pub open spec fn spec_negated(v: Varnode) -> Varnode {
    Varnode { name: v.name, space: v.space, offset: ((!spec_sign_extend64(v.offset, v.size)) + 1) as u64, size: v.size }
}

/// Whether the varnode can be negated: 1 to 8 bytes with a nonzero sign-extended offset.
pub open spec fn spec_negatable(v: Varnode) -> bool {
    1 <= v.size <= 8 && spec_sign_extend64(v.offset, v.size) != 0
}

/// An addition of a negative constant becomes a subtraction of its negation (the constant
/// moved to the right), and a subtraction of a negative constant an addition.
pub open spec fn spec_fix_signs(op: OpCode, ins: Seq<Varnode>) -> Option<(OpCode, Seq<Varnode>)> {
    if op == OpCode::IntAdd {
        if ins.len() < 2 || !spec_neg_ok(ins[1]) {
            None
        } else if spec_is_neg(ins[1]) {
            if spec_negatable(ins[1]) {
                Some((OpCode::IntSub, ins.update(1, spec_negated(ins[1]))))
            } else {
                None
            }
        } else if !spec_neg_ok(ins[0]) {
            None
        } else if spec_is_neg(ins[0]) {
            if spec_negatable(ins[0]) {
                Some((OpCode::IntSub, ins.update(0, ins[1]).update(1, spec_negated(ins[0]))))
            } else {
                None
            }
        } else {
            Some((op, ins))
        }
    } else if op == OpCode::IntSub {
        if ins.len() < 2 || !spec_neg_ok(ins[1]) {
            None
        } else if spec_is_neg(ins[1]) {
            if spec_negatable(ins[1]) {
                Some((OpCode::IntAdd, ins.update(1, spec_negated(ins[1]))))
            } else {
                None
            }
        } else {
            Some((op, ins))
        }
    } else {
        Some((op, ins))
    }
}

/// The low `s` bytes of a 64-bit value, as a mask (all bits for 8 bytes or more).
pub open spec fn spec_low_bytes_mask(s: u64) -> u64 {
    if s >= 8 { 0xffff_ffff_ffff_ffffu64 } else { ((1u64 << (s * 8) as u64) - 1) as u64 }
}

/// What an addition or subtraction computes on `x` and `c`, wrapping at 64 bits.
pub open spec fn spec_add_sub(op: OpCode, x: u64, c: u64) -> u64 {
    if op == OpCode::IntSub { (x - c) as u64 } else { (x + c) as u64 }
}

proof fn lemma_negation_flips(x: u64, c: u64, s: u64)
    requires
        1 <= s <= 8,
    ensures
        ({
            let sh = (64 - s * 8) as u64;
            let e = (((c << sh) as i64) >> sh) as u64;
            let n = (!e + 1) as u64;
            let m = if s >= 8 { 0xffff_ffff_ffff_ffffu64 } else { ((1u64 << (s * 8) as u64) - 1) as u64 };
            &&& (((x - n) as u64) & m) == (((x + c) as u64) & m)
            &&& (((x + n) as u64) & m) == (((x - c) as u64) & m)
        }),
{
    assert({
        let sh = (64 - s * 8) as u64;
        let e = (((c << sh) as i64) >> sh) as u64;
        let n = (!e + 1) as u64;
        let m = if s >= 8 { 0xffff_ffff_ffff_ffffu64 } else { ((1u64 << (s * 8) as u64) - 1) as u64 };
        &&& (((x - n) as u64) & m) == (((x + c) as u64) & m)
        &&& (((x + n) as u64) & m) == (((x - c) as u64) & m)
    }) by (bit_vector)
        requires
            1 <= s <= 8,
    ;
}

/// Fixing the signs of an addition or subtraction of a constant keeps what it computes:
/// for every value of the other input, the operation `fix_sizes` leaves gives the same
/// result, in the constant's width, as the operation it was given (an addition of a
/// negative constant becomes a subtraction of its negation, and the reverse); the other
/// input keeps its place.
pub proof fn lemma_fix_sizes_keeps_value(op: OpCode, ins: Seq<Varnode>, out: Option<Varnode>, x: u64)
    requires
        op == OpCode::IntAdd || op == OpCode::IntSub,
        ins.len() == 2,
        ins[0].space != AddressSpace::Const,
        ins[1].space == AddressSpace::Const,
        spec_fix_sizes(op, ins, out) is Some,
    ensures
        ({
            let (op2, ins2, _) = spec_fix_sizes(op, ins, out).unwrap();
            let m = spec_low_bytes_mask(ins[1].size);
            &&& op2 == OpCode::IntAdd || op2 == OpCode::IntSub
            &&& ins2.len() == 2
            &&& ins2[0].space == ins[0].space && ins2[0].offset == ins[0].offset
            &&& ins2[1].space == AddressSpace::Const
            &&& (spec_add_sub(op2, x, ins2[1].offset) & m) == (spec_add_sub(op, x, ins[1].offset) & m)
        }),
{
    let (op1, ins1) = spec_fix_signs(op, ins).unwrap();
    let c = ins[1].offset;
    let s = ins[1].size;
    lemma_negation_flips(x, c, s);
    let (op2, ins2, _) = spec_fix_sizes(op, ins, out).unwrap();
    assert(!spec_size_exempt(op1));
    let sz = spec_unified_size(op1, ins1, out);
    assert(ins2[0] == spec_fixed_input(op1, 0, ins1[0], sz));
    assert(ins2[1] == spec_fixed_input(op1, 1, ins1[1], sz));
}

/// Whether the operation is a shift (whose second input keeps its own size).
pub open spec fn spec_is_shift(op: OpCode) -> bool {
    op == OpCode::IntLeft || op == OpCode::IntRight || op == OpCode::IntSRight
}

/// The size of the first register among the inputs from position `i` on, or 0.
pub open spec fn spec_first_reg_size(ins: Seq<Varnode>, i: int) -> u64
    decreases ins.len() - i,
{
    if i < 0 || i >= ins.len() {
        0
    } else if ins[i].space == AddressSpace::Register {
        ins[i].size
    } else {
        spec_first_reg_size(ins, i + 1)
    }
}

/// The largest size among the first `n` inputs, leaving out a shift's amount.
pub open spec fn spec_max_size(op: OpCode, ins: Seq<Varnode>, n: int) -> u64
    decreases n,
{
    if n <= 0 {
        0
    } else {
        let m = spec_max_size(op, ins, n - 1);
        if !(spec_is_shift(op) && n - 1 == 1) && ins[n - 1].size > m {
            ins[n - 1].size
        } else {
            m
        }
    }
}

/// The size the operation's inputs are brought to.
pub open spec fn spec_unified_size(op: OpCode, ins: Seq<Varnode>, out: Option<Varnode>) -> u64 {
    let output_size: u64 = match out { Some(o) => o.size, None => 0 };
    let sz0 = spec_first_reg_size(ins, 0);
    let sz1 = if sz0 == 0 { spec_max_size(op, ins, ins.len() as int) } else { sz0 };
    if !(op == OpCode::Load || op == OpCode::IntSext || op == OpCode::IntZext || op == OpCode::FloatInt2Float) && !spec_is_conditional(op) {
        let a = if out is Some && out.unwrap().space == AddressSpace::Register { output_size } else { sz1 };
        if a == 0 || op == OpCode::Copy {
            if a >= output_size { a } else { output_size }
        } else {
            a
        }
    } else {
        sz1
    }
}

/// Input `i` brought to size `sz`: registers, a subpiece's amount, a conditional branch's
/// destination and a shift's amount stay as they are; a constant of 1 to 8 bytes in an
/// operation other than an addition or subtraction is also sign-extended and cut to `sz`
/// bytes. `None` where `sz` exceeds 8 bytes for such a constant.
pub open spec fn spec_resized(op: OpCode, i: int, v: Varnode, sz: u64) -> Option<Varnode> {
    if v.space != AddressSpace::Register && !(i == 1 && op == OpCode::SubPiece) && !(i == 0 && op == OpCode::CBranch) && !(i == 1 && spec_is_shift(op)) {
        if v.space == AddressSpace::Const && 0 < v.size <= 8 && op != OpCode::IntSub && op != OpCode::IntAdd {
            if sz <= 8 {
                let sh = ((64 - sz * 8) % 64) as u64;
                let e = spec_sign_extend64(v.offset, v.size);
                Some(Varnode { name: v.name, space: v.space, offset: (e << sh) >> sh, size: sz })
            } else {
                None
            }
        } else {
            Some(Varnode { name: v.name, space: v.space, offset: v.offset, size: sz })
        }
    } else {
        Some(v)
    }
}

/// The operations whose sizes are left as they are (but for a store's pointer).
pub open spec fn spec_size_exempt(op: OpCode) -> bool {
    op == OpCode::Store || op == OpCode::Call || op == OpCode::CallInd || op == OpCode::CallOther || op == OpCode::SubPiece
}

/// Whether `fix_sizes` completes, and what it leaves: the operation, inputs and output
/// after the sign normalisation, the resizing, and the pointer sizes of stores and loads.
pub open spec fn spec_fix_sizes_ok(op: OpCode, ins: Seq<Varnode>, out: Option<Varnode>, op2: OpCode, ins2: Seq<Varnode>, out2: Option<Varnode>) -> bool {
    match spec_fix_signs(op, ins) {
        None => false,
        Some((op1, ins1)) => {
            &&& op2 == op1
            &&& ins2.len() == ins1.len()
            &&& if !spec_size_exempt(op1) {
                let sz = spec_unified_size(op1, ins1, out);
                &&& forall|i: int| 0 <= i < ins1.len() ==> spec_resized(op1, i, ins1[i], sz) is Some
                &&& (op1 == OpCode::IntAdd || op1 == OpCode::IntSub || op1 == OpCode::IntMult || op1 == OpCode::IntDiv || op1 == OpCode::Copy) ==> (out is Some && out2 == Some(Varnode { size: sz, ..out.unwrap() }))
                &&& !(op1 == OpCode::IntAdd || op1 == OpCode::IntSub || op1 == OpCode::IntMult || op1 == OpCode::IntDiv || op1 == OpCode::Copy) ==> out2 == out
                &&& (op1 == OpCode::CBranch || op1 == OpCode::Load) ==> ins1.len() >= 2
                &&& forall|i: int| 0 <= i < ins1.len() ==> {
                    let v = spec_resized(op1, i, ins1[i], sz).unwrap();
                    let v1 = if op1 == OpCode::CBranch && i == 1 && v.size > 1 { Varnode { size: 1, ..v } } else { v };
                    let v2 = if op1 == OpCode::Load && i == 1 { Varnode { size: 8, ..v1 } } else { v1 };
                    #[trigger] ins2[i] == v2
                }
            } else {
                &&& out2 == out
                &&& (op1 == OpCode::Store || op1 == OpCode::Load) ==> ins1.len() >= 2
                &&& forall|i: int| 0 <= i < ins1.len() ==> #[trigger] ins2[i] == if (op1 == OpCode::Store || op1 == OpCode::Load) && i == 1 { Varnode { size: 8, ..ins1[i] } } else { ins1[i] }
            }
        },
    }
}

/// Whether `fix_sizes` completes on these parts: where it does not, the operation reads an
/// input that is not there, asks the sign of a constant of no or more than 8 bytes, negates
/// a constant whose sign-extended value is 0, resizes a constant to more than 8 bytes, or
/// sets the size of a missing output.
pub open spec fn spec_fix_sizes_defined(op: OpCode, ins: Seq<Varnode>, out: Option<Varnode>) -> bool {
    match spec_fix_signs(op, ins) {
        None => false,
        Some((op1, ins1)) => if !spec_size_exempt(op1) {
            let sz = spec_unified_size(op1, ins1, out);
            &&& forall|i: int| 0 <= i < ins1.len() ==> spec_resized(op1, i, ins1[i], sz) is Some
            &&& (op1 == OpCode::IntAdd || op1 == OpCode::IntSub || op1 == OpCode::IntMult || op1 == OpCode::IntDiv || op1 == OpCode::Copy) ==> out is Some
            &&& (op1 == OpCode::CBranch || op1 == OpCode::Load) ==> ins1.len() >= 2
        } else {
            (op1 == OpCode::Store || op1 == OpCode::Load) ==> ins1.len() >= 2
        },
    }
}

fn sext64(v: u64, size: u64) -> (r: u64)
    requires
        1 <= size <= 8,
    ensures
        r == spec_sign_extend64(v, size),
{
    let shift: u64 = 64 - size * 8;
    (((v << shift) as i64) >> shift) as u64
}

fn neg_ok(v: &Varnode) -> (r: bool)
    ensures
        r == spec_neg_ok(*v),
{
    v.space != AddressSpace::Const || (1 <= v.size && v.size <= 8)
}

fn negatable(v: &Varnode) -> (r: bool)
    ensures
        r == spec_negatable(*v),
{
    1 <= v.size && v.size <= 8 && sext64(v.offset, v.size) != 0
}

fn is_shift(op: OpCode) -> (r: bool)
    ensures
        r == spec_is_shift(op),
{
    op == OpCode::IntLeft || op == OpCode::IntRight || op == OpCode::IntSRight
}

fn resized(op: OpCode, i: usize, v: &Varnode, sz: u64) -> (r: Option<Varnode>)
    ensures
        r == spec_resized(op, i as int, *v, sz),
{
    if v.space != AddressSpace::Register && !(i == 1 && op == OpCode::SubPiece) && !(i == 0 && op == OpCode::CBranch) && !(i == 1 && is_shift(op)) {
        if v.space == AddressSpace::Const && 0 < v.size && v.size <= 8 && op != OpCode::IntSub && op != OpCode::IntAdd {
            if sz > 8 {
                return None;
            }
            let sh: u64 = (64 - sz * 8) % 64;
            let e = sext64(v.offset, v.size);
            let r = Varnode { name: v.name.clone(), space: v.space, offset: (e << sh) >> sh, size: sz };
            Some(r)
        } else {
            Some(Varnode { name: v.name.clone(), space: v.space, offset: v.offset, size: sz })
        }
    } else {
        Some(v.clone())
    }
}

fn first_reg_size(ins: &Vec<Varnode>) -> (r: u64)
    ensures
        r == spec_first_reg_size(ins@, 0),
{
    let mut i: usize = 0;
    while i < ins.len()
        invariant
            i <= ins@.len(),
            spec_first_reg_size(ins@, 0) == spec_first_reg_size(ins@, i as int),
        decreases ins@.len() - i,
    {
        if ins[i].space == AddressSpace::Register {
            return ins[i].size;
        }
        i = i + 1;
    }
    0
}

fn unified_size(op: OpCode, ins: &Vec<Varnode>, out: &Option<Varnode>) -> (r: u64)
    ensures
        r == spec_unified_size(op, ins@, *out),
{
    let output_size: u64 = match out {
        Some(o) => o.size,
        None => 0,
    };
    let mut sz: u64 = first_reg_size(ins);

    if sz == 0 {
        let mut j: usize = 0;
        while j < ins.len()
            invariant
                j <= ins@.len(),
                sz == spec_max_size(op, ins@, j as int),
            decreases ins@.len() - j,
        {
            if !(is_shift(op) && j == 1) && ins[j].size > sz {
                sz = ins[j].size;
            }
            j = j + 1;
        }
    }
    if !(op == OpCode::Load || op == OpCode::IntSext || op == OpCode::IntZext || op == OpCode::FloatInt2Float) && !op.is_conditional() {
        let is_reg_out = match out {
            Some(o) => o.space == AddressSpace::Register,
            None => false,
        };
        if is_reg_out {
            sz = output_size;
        }
        if sz == 0 || op == OpCode::Copy {
            if output_size > sz {
                sz = output_size;
            }
        }
    }
    sz
}

/// Normalises the signs of an addition or subtraction of a negative constant, brings the
/// inputs (and the output of arithmetic and copies) to one size, and gives the pointers of
/// stores and loads 8 bytes (see `spec_fix_sizes_ok`). Returns whether it completed.
fn fix_sizes(opcode: &mut OpCode, inputs: &mut Vec<Varnode>, output: &mut Option<Varnode>) -> (r: bool)
    ensures
        r == spec_fix_sizes_defined(*old(opcode), old(inputs)@, *old(output)),
        r ==> spec_fix_sizes_ok(*old(opcode), old(inputs)@, *old(output), *final(opcode), final(inputs)@, *final(output)),
{
    if *opcode == OpCode::IntAdd {
        if inputs.len() < 2 || !neg_ok(&inputs[1]) {
            return false;
        }
        if inputs[1].is_negative() {
            if !negatable(&inputs[1]) {
                return false;
            }
            let n = inputs[1].negate();
            inputs.set(1, n);
            *opcode = OpCode::IntSub;
        } else {
            if !neg_ok(&inputs[0]) {
                return false;
            }
            if inputs[0].is_negative() {
                if !negatable(&inputs[0]) {
                    return false;
                }
                let c = inputs[0].clone();
                let b = inputs[1].clone();
                inputs.set(0, b);
                inputs.set(1, c.negate());
                *opcode = OpCode::IntSub;
            }
        }
    } else if *opcode == OpCode::IntSub {
        if inputs.len() < 2 || !neg_ok(&inputs[1]) {
            return false;
        }
        if inputs[1].is_negative() {
            if !negatable(&inputs[1]) {
                return false;
            }
            let n = inputs[1].negate();
            inputs.set(1, n);
            *opcode = OpCode::IntAdd;
        }
    }
    let op = *opcode;
    let ghost ins1 = inputs@;
    assert(spec_fix_signs(*old(opcode), old(inputs)@) == Some((op, ins1)));
    if !(op == OpCode::Store || op == OpCode::Call || op == OpCode::CallInd || op == OpCode::CallOther || op == OpCode::SubPiece) {
        let sz = unified_size(op, inputs, output);
        let mut i: usize = 0;
        while i < inputs.len()
            invariant
                i <= inputs@.len(),
                inputs@.len() == ins1.len(),
                spec_fix_signs(*old(opcode), old(inputs)@) == Some((op, ins1)),
                *opcode == op,
                !spec_size_exempt(op),
                sz == spec_unified_size(op, ins1, *old(output)),
                *output == *old(output),
                forall|j: int| 0 <= j < i ==> (#[trigger] spec_resized(op, j, ins1[j], sz)) is Some,
                forall|j: int| 0 <= j < i ==> #[trigger] inputs@[j] == spec_resized(op, j, ins1[j], sz).unwrap(),
                forall|j: int| i <= j < inputs@.len() ==> #[trigger] inputs@[j] == ins1[j],
            decreases inputs@.len() - i,
        {
            assert(inputs@[i as int] == ins1[i as int]);
            let res = resized(op, i, &inputs[i], sz);
            assert(res == spec_resized(op, i as int, ins1[i as int], sz));
            match res {
                Some(v) => {
                    assert(v == spec_resized(op, i as int, ins1[i as int], sz).unwrap());
                    inputs.set(i, v);
                },
                None => {
                    assert(spec_resized(op, i as int, ins1[i as int], sz) is None);
                    return false;
                },
            }
            i = i + 1;
        }
        if op == OpCode::IntAdd || op == OpCode::IntSub || op == OpCode::IntMult || op == OpCode::IntDiv || op == OpCode::Copy {
            let mut o2 = match output {
                Some(o) => o.clone(),
                None => return false,
            };
            o2.size = sz;
            *output = Some(o2);
        }
        if op == OpCode::CBranch {
            if inputs.len() < 2 {
                return false;
            }
            if inputs[1].size > 1 {
                let mut v = inputs[1].clone();
                v.size = 1;
                inputs.set(1, v);
            }
        }
        if op == OpCode::Load {
            if inputs.len() < 2 {
                return false;
            }
            let mut v = inputs[1].clone();
            v.size = 8;
            inputs.set(1, v);
        }
    } else if op == OpCode::Store {
        if inputs.len() < 2 {
            return false;
        }
        let mut v = inputs[1].clone();
        v.size = 8;
        inputs.set(1, v);
    }
    true
}

/// Whether the operation's output takes the unified size.
pub open spec fn spec_sized_output(op: OpCode) -> bool {
    op == OpCode::IntAdd || op == OpCode::IntSub || op == OpCode::IntMult || op == OpCode::IntDiv || op == OpCode::Copy
}

/// Input `i` (`v`) as `fix_sizes` leaves it in an operation whose sizes are unified to `sz`.
pub open spec fn spec_fixed_input(op: OpCode, i: int, v: Varnode, sz: u64) -> Varnode {
    let v0 = spec_resized(op, i, v, sz).unwrap();
    let v1 = if op == OpCode::CBranch && i == 1 && v0.size > 1 { Varnode { size: 1, ..v0 } } else { v0 };
    if op == OpCode::Load && i == 1 { Varnode { size: 8, ..v1 } } else { v1 }
}

/// Input `i` (`v`) as `fix_sizes` leaves it in an operation whose sizes stay as they are.
pub open spec fn spec_exempt_input(op: OpCode, i: int, v: Varnode) -> Varnode {
    if (op == OpCode::Store || op == OpCode::Load) && i == 1 { Varnode { size: 8, ..v } } else { v }
}

/// The operation, inputs and output `fix_sizes` leaves (see `spec_fix_sizes_ok`); `None`
/// where it does not complete.
pub open spec fn spec_fix_sizes(op: OpCode, ins: Seq<Varnode>, out: Option<Varnode>) -> Option<(OpCode, Seq<Varnode>, Option<Varnode>)> {
    if !spec_fix_sizes_defined(op, ins, out) {
        None
    } else {
        let (op1, ins1) = spec_fix_signs(op, ins).unwrap();
        if !spec_size_exempt(op1) {
            let sz = spec_unified_size(op1, ins1, out);
            let out2 = if spec_sized_output(op1) { Some(Varnode { size: sz, ..out.unwrap() }) } else { out };
            Some((op1, Seq::new(ins1.len(), |i: int| spec_fixed_input(op1, i, ins1[i], sz)), out2))
        } else {
            Some((op1, Seq::new(ins1.len(), |i: int| spec_exempt_input(op1, i, ins1[i])), out))
        }
    }
}

proof fn lemma_fix_sizes_fn(op: OpCode, ins: Seq<Varnode>, out: Option<Varnode>, op2: OpCode, ins2: Seq<Varnode>, out2: Option<Varnode>)
    requires
        spec_fix_sizes_defined(op, ins, out),
        spec_fix_sizes_ok(op, ins, out, op2, ins2, out2),
    ensures
        spec_fix_sizes(op, ins, out) == Some((op2, ins2, out2)),
{
    let (op1, ins1) = spec_fix_signs(op, ins).unwrap();
    if !spec_size_exempt(op1) {
        let sz = spec_unified_size(op1, ins1, out);
        assert(ins2 =~= Seq::new(ins1.len(), |i: int| spec_fixed_input(op1, i, ins1[i], sz)));
    } else {
        assert(ins2 =~= Seq::new(ins1.len(), |i: int| spec_exempt_input(op1, i, ins1[i])));
    }
}

/// Whether two lists of varnodes agree element by element, names compared by characters.
pub open spec fn same_varnodes(a: Seq<Varnode>, b: Seq<Varnode>) -> bool {
    a.len() == b.len() && forall|i: int| 0 <= i < a.len() ==> #[trigger] same_varnode(a[i], b[i])
}

/// Whether two optional varnodes agree, names compared by characters.
pub open spec fn same_opt_varnode(a: Option<Varnode>, b: Option<Varnode>) -> bool {
    match (a, b) {
        (Some(x), Some(y)) => same_varnode(x, y),
        (None, None) => true,
        _ => false,
    }
}

proof fn lemma_first_reg_size_same(a: Seq<Varnode>, b: Seq<Varnode>, i: int)
    requires
        same_varnodes(a, b),
    ensures
        spec_first_reg_size(a, i) == spec_first_reg_size(b, i),
    decreases a.len() - i,
{
    if 0 <= i < a.len() {
        assert(same_varnode(a[i], b[i]));
        lemma_first_reg_size_same(a, b, i + 1);
    }
}

proof fn lemma_max_size_same(op: OpCode, a: Seq<Varnode>, b: Seq<Varnode>, n: int)
    requires
        same_varnodes(a, b),
        n <= a.len(),
    ensures
        spec_max_size(op, a, n) == spec_max_size(op, b, n),
    decreases n,
{
    if n > 0 {
        assert(same_varnode(a[n - 1], b[n - 1]));
        lemma_max_size_same(op, a, b, n - 1);
    }
}

proof fn lemma_fix_signs_same(op: OpCode, a: Seq<Varnode>, b: Seq<Varnode>)
    requires
        same_varnodes(a, b),
    ensures
        match (spec_fix_signs(op, a), spec_fix_signs(op, b)) {
            (Some((o1, a1)), Some((o2, b1))) => o1 == o2 && same_varnodes(a1, b1),
            (None, None) => true,
            _ => false,
        },
{
    if a.len() >= 2 {
        assert(same_varnode(a[0], b[0]));
        assert(same_varnode(a[1], b[1]));
    }
    if let (Some((o1, a1)), Some((o2, b1))) = (spec_fix_signs(op, a), spec_fix_signs(op, b)) {
        assert forall|i: int| 0 <= i < a1.len() implies #[trigger] same_varnode(a1[i], b1[i]) by {
            assert(same_varnode(a[i], b[i]));
        }
    }
}

/// `fix_sizes` treats two lists of parts that agree (names aside from their characters)
/// alike.
proof fn lemma_fix_sizes_same(op: OpCode, a: Seq<Varnode>, oa: Option<Varnode>, b: Seq<Varnode>, ob: Option<Varnode>)
    requires
        same_varnodes(a, b),
        same_opt_varnode(oa, ob),
    ensures
        match (spec_fix_sizes(op, a, oa), spec_fix_sizes(op, b, ob)) {
            (Some((o1, a1, x1)), Some((o2, b1, x2))) => o1 == o2 && same_varnodes(a1, b1) && same_opt_varnode(x1, x2),
            (None, None) => true,
            _ => false,
        },
{
    lemma_fix_signs_same(op, a, b);
    if let (Some((o1, a1)), Some((o2, b1))) = (spec_fix_signs(op, a), spec_fix_signs(op, b)) {
        lemma_first_reg_size_same(a1, b1, 0);
        lemma_max_size_same(o1, a1, b1, a1.len() as int);
        let sz = spec_unified_size(o1, a1, oa);
        assert(sz == spec_unified_size(o1, b1, ob));
        assert forall|i: int| 0 <= i < a1.len() implies #[trigger] spec_resized(o1, i, a1[i], sz) is Some <==> spec_resized(o1, i, b1[i], sz) is Some by {
            assert(same_varnode(a1[i], b1[i]));
        }
        assert(oa is Some <==> ob is Some);
        assert(a1.len() == b1.len());
        if !spec_size_exempt(o1) {
            if forall|i: int| 0 <= i < a1.len() ==> #[trigger] spec_resized(o1, i, a1[i], sz) is Some {
                assert forall|i: int| 0 <= i < b1.len() implies #[trigger] spec_resized(o1, i, b1[i], sz) is Some by {
                    assert(same_varnode(a1[i], b1[i]));
                    assert(spec_resized(o1, i, a1[i], sz) is Some);
                }
            }
            if forall|i: int| 0 <= i < b1.len() ==> #[trigger] spec_resized(o1, i, b1[i], sz) is Some {
                assert forall|i: int| 0 <= i < a1.len() implies #[trigger] spec_resized(o1, i, a1[i], sz) is Some by {
                    assert(same_varnode(a1[i], b1[i]));
                    assert(spec_resized(o1, i, b1[i], sz) is Some);
                }
            }
        }
        assert(spec_fix_sizes_defined(op, a, oa) == spec_fix_sizes_defined(op, b, ob));
        if spec_fix_sizes_defined(op, a, oa) {
            let (p1, c1, y1) = spec_fix_sizes(op, a, oa).unwrap();
            let (p2, c2, y2) = spec_fix_sizes(op, b, ob).unwrap();
            assert(c1.len() == c2.len());
            assert forall|i: int| 0 <= i < c1.len() implies #[trigger] same_varnode(c1[i], c2[i]) by {
                assert(same_varnode(a1[i], b1[i]));
                if !spec_size_exempt(o1) {
                    assert(c1[i] == spec_fixed_input(o1, i, a1[i], sz));
                    assert(c2[i] == spec_fixed_input(o1, i, b1[i], sz));
                } else {
                    assert(c1[i] == spec_exempt_input(o1, i, a1[i]));
                    assert(c2[i] == spec_exempt_input(o1, i, b1[i]));
                }
            }
            assert(same_varnodes(c1, c2));
            assert(same_opt_varnode(y1, y2));
        }
    }
}

/// An op as its parts: sequence number, operation, inputs and output.
pub type OpParts = (SeqNum, OpCode, Seq<Varnode>, Option<Varnode>);

/// Whether an op has the given parts, names compared by characters.
pub open spec fn same_parts(op: PcodeOp, p: OpParts) -> bool {
    op.seq == p.0 && op.opcode == p.1 && same_varnodes(op.inputs@, p.2) && same_opt_varnode(op.output, p.3)
}

/// Whether `ops` is `prev` followed by ops with the parts `new`.
pub open spec fn spec_extended_by(prev: Seq<PcodeOp>, ops: Seq<PcodeOp>, new: Seq<OpParts>) -> bool {
    &&& ops.len() == prev.len() + new.len()
    &&& ops.subrange(0, prev.len() as int) == prev
    &&& forall|k: int| 0 <= k < new.len() ==> #[trigger] same_parts(ops[prev.len() + k], new[k])
}

/// The load of a handle's value into its temporary, numbered `uniq` at `pc`.
pub open spec fn spec_load_parts(pc: Address, uniq: int, h: Handle) -> OpParts {
    (SeqNum { pc, uniq: uniq as i32 }, OpCode::Load, seq![Varnode { name: None, space: AddressSpace::Dummy, offset: 0, size: 0 }, h.pointer], Some(h.temp))
}

/// What one input template gives: the loads it needs and the input itself. An operand that
/// is a varnode gives itself; an operand that is a handle gives its temporary, loaded
/// through its pointer first (numbered `uniq`), or its pointer where the temporary is in
/// the dummy space; any other template builds its varnode. `None` where the operand is
/// missing or a dummy, the template cannot be built, or the load's number would reach
/// `i32::MAX`.
pub open spec fn spec_op_input(t: VarnodeTemplate, objs: Seq<PcodeObject>, pc: Address, bit_len: usize, lang: SleighLanguage, fx: (String, String), uniq: int) -> Option<(Seq<OpParts>, Varnode)> {
    match spec_handle_index(t) {
        Some(idx) => if (idx as int) < objs.len() {
            match objs[idx as int] {
                PcodeObject::Varnode(vn) => Some((Seq::empty(), vn)),
                PcodeObject::Handle(h) => if h.temp.space != AddressSpace::Dummy {
                    if uniq >= i32::MAX {
                        None
                    } else {
                        Some((seq![spec_load_parts(pc, uniq, h)], h.temp))
                    }
                } else {
                    Some((Seq::empty(), h.pointer))
                },
                PcodeObject::Dummy => None,
            }
        } else {
            None
        },
        None => match spec_build_varnode(t, objs, pc, bit_len, lang, fx) {
            Some(vn) => Some((Seq::empty(), vn)),
            None => None,
        },
    }
}

/// The loads and inputs that the input templates from position `k` on give (see
/// `spec_op_input`), loads numbered from `uniq` on.
pub open spec fn spec_op_inputs(tpls: Seq<VarnodeTemplate>, k: int, objs: Seq<PcodeObject>, pc: Address, bit_len: usize, lang: SleighLanguage, fx: (String, String), uniq: int) -> Option<(Seq<OpParts>, Seq<Varnode>)>
    decreases tpls.len() - k,
{
    if k < 0 || k >= tpls.len() {
        Some((Seq::empty(), Seq::empty()))
    } else {
        match spec_op_input(tpls[k], objs, pc, bit_len, lang, fx, uniq) {
            Some((loads, vn)) => match spec_op_inputs(tpls, k + 1, objs, pc, bit_len, lang, fx, uniq + loads.len()) {
                Some((rest_loads, rest)) => Some((loads + rest_loads, seq![vn] + rest)),
                None => None,
            },
            None => None,
        }
    }
}

/// `ops` followed by the op `op` on `ins` and `out` numbered `uniq`, its sizes fixed;
/// `None` where they cannot be.
pub open spec fn spec_push_fixed(ops: Seq<OpParts>, pc: Address, uniq: int, op: OpCode, ins: Seq<Varnode>, out: Option<Varnode>) -> Option<Seq<OpParts>> {
    match spec_fix_sizes(op, ins, out) {
        Some((o, i, x)) => Some(ops.push((SeqNum { pc, uniq: uniq as i32 }, o, i, x))),
        None => None,
    }
}

/// The ops an op template's operation `op0` on the inputs `ins` builds after the loads
/// `loads`, numbered from `u` on, for the output template `out_tpl`: the op itself with its
/// sizes fixed, and, where its output is a handle, a store of the handle's temporary
/// through the handle's pointer after it. `None` where the output cannot be built.
pub open spec fn spec_op_output(op0: OpCode, out_tpl: Option<VarnodeTemplate>, loads: Seq<OpParts>, ins: Seq<Varnode>, u: int, objs: Seq<PcodeObject>, pc: Address, bit_len: usize, lang: SleighLanguage, fx: (String, String)) -> Option<Seq<OpParts>> {
    match out_tpl {
        None => spec_push_fixed(loads, pc, u, op0, ins, None),
        Some(tpl) => match spec_handle_index(tpl) {
            Some(idx) => if (idx as int) < objs.len() {
                match objs[idx as int] {
                    PcodeObject::Varnode(vn) => spec_push_fixed(loads, pc, u, op0, ins, Some(vn)),
                    PcodeObject::Handle(h) => if h.temp.space != AddressSpace::Dummy {
                        if u >= i32::MAX {
                            None
                        } else {
                            match spec_push_fixed(loads, pc, u, op0, ins, Some(h.temp)) {
                                Some(mid) => spec_push_fixed(
                                    mid,
                                    pc,
                                    u + 1,
                                    OpCode::Store,
                                    seq![Varnode { name: None, space: AddressSpace::Dummy, offset: 0, size: 0 }, h.pointer, h.temp],
                                    None,
                                ),
                                None => None,
                            }
                        }
                    } else {
                        spec_push_fixed(loads, pc, u, op0, ins, Some(h.pointer))
                    },
                    PcodeObject::Dummy => None,
                }
            } else {
                None
            },
            None => match spec_build_varnode(tpl, objs, pc, bit_len, lang, fx) {
                Some(vn) => spec_push_fixed(loads, pc, u, op0, ins, Some(vn)),
                None => None,
            },
        },
    }
}

/// The ops one op template builds, numbered from `seq0` on: the loads its inputs need (see
/// `spec_op_inputs`; a `RETURN` leaves out its first input), then the op and any store
/// (see `spec_op_output`). `None` where the operation is unknown or a part cannot be built.
pub open spec fn spec_build_pcodeop(seq0: SeqNum, t: OpTemplate, objs: Seq<PcodeObject>, bit_len: usize, lang: SleighLanguage, fx: (String, String)) -> Option<Seq<OpParts>> {
    match spec_opcode_of_name(t.code@) {
        None => None,
        Some(op0) => {
            let first = if op0 == OpCode::Return { 1int } else { 0int };
            match spec_op_inputs(t.inputs@, first, objs, seq0.pc, bit_len, lang, fx, seq0.uniq as int) {
                None => None,
                Some((loads, ins)) => spec_op_output(op0, t.output, loads, ins, seq0.uniq + loads.len(), objs, seq0.pc, bit_len, lang, fx),
            }
        },
    }
}

fn dummy_pointer_pair(pointer: &Varnode) -> (r: Vec<Varnode>)
    ensures
        r@ == seq![Varnode { name: None, space: AddressSpace::Dummy, offset: 0, size: 0 }, *pointer],
{
    let mut v: Vec<Varnode> = Vec::new();
    v.push(Varnode::dummy());
    v.push(pointer.clone());
    assert(v@ =~= seq![Varnode { name: None, space: AddressSpace::Dummy, offset: 0, size: 0 }, *pointer]);
    v
}

/// `fix_sizes` followed by the push of the op it leaves, told in terms of the parts of the
/// op that the spec builds from parts that agree with these.
fn push_fixed(ops: &mut Vec<PcodeOp>, seq: SeqNum, opcode: OpCode, inputs: Vec<Varnode>, output: Option<Varnode>, Ghost(prev): Ghost<Seq<PcodeOp>>, Ghost(gnew): Ghost<Seq<OpParts>>, Ghost(gins): Ghost<Seq<Varnode>>, Ghost(gout): Ghost<Option<Varnode>>) -> (r: bool)
    requires
        spec_extended_by(prev, old(ops)@, gnew),
        same_varnodes(inputs@, gins),
        same_opt_varnode(output, gout),
    ensures
        match spec_push_fixed(gnew, seq.pc, seq.uniq as int, opcode, gins, gout) {
            Some(n) => r && spec_extended_by(prev, final(ops)@, n),
            None => !r && final(ops)@ == old(ops)@,
        },
{
    let mut opcode = opcode;
    let mut inputs = inputs;
    let mut output = output;
    let ghost (op0, ins0, out0) = (opcode, inputs@, output);
    let ok = fix_sizes(&mut opcode, &mut inputs, &mut output);
    proof {
        lemma_fix_sizes_same(op0, ins0, out0, gins, gout);
    }
    if !ok {
        return false;
    }
    proof {
        lemma_fix_sizes_fn(op0, ins0, out0, opcode, inputs@, output);
    }
    let ghost before = ops@;
    ops.push(Op { seq, opcode, inputs, output });
    proof {
        let n = spec_push_fixed(gnew, seq.pc, seq.uniq as int, op0, gins, gout).unwrap();
        assert(ops@.subrange(0, prev.len() as int) =~= before.subrange(0, prev.len() as int));
        assert forall|k: int| 0 <= k < n.len() implies #[trigger] same_parts(ops@[prev.len() + k], n[k]) by {
            if k < gnew.len() {
                assert(ops@[prev.len() + k] == before[prev.len() + k]);
            }
        }
    }
    true
}

/// `l` and `i` followed by what `rest` gives.
pub open spec fn spec_prepend_inputs(l: Seq<OpParts>, i: Seq<Varnode>, rest: Option<(Seq<OpParts>, Seq<Varnode>)>) -> Option<(Seq<OpParts>, Seq<Varnode>)> {
    match rest {
        Some((l2, i2)) => Some((l + l2, i + i2)),
        None => None,
    }
}

proof fn lemma_prepend_assoc(a: Seq<OpParts>, b: Seq<Varnode>, c: Seq<OpParts>, d: Seq<Varnode>, x: Option<(Seq<OpParts>, Seq<Varnode>)>)
    ensures
        spec_prepend_inputs(a, b, spec_prepend_inputs(c, d, x)) == spec_prepend_inputs(a + c, b + d, x),
{
    if let Some((l2, i2)) = x {
        assert(a + (c + l2) =~= (a + c) + l2);
        assert(b + (d + i2) =~= (b + d) + i2);
    }
}

/// Builds the inputs of an op template from position `first` on into `inputs`, and the
/// loads they need into `ops`, numbered from `seq` on (see `spec_op_inputs`). Returns
/// whether all of them could be built.
fn build_op_inputs(tpls: &Vec<VarnodeTemplate>, first: usize, objs: &[PcodeObject], ops: &mut Vec<PcodeOp>, seq: &mut SeqNum, inputs: &mut Vec<Varnode>, ctx: &BuildContext) -> (r: bool)
    requires
        old(inputs)@.len() == 0,
        old(seq).pc == *ctx.pc,
    ensures
        final(seq).pc == old(seq).pc,
        final(ops)@.len() >= old(ops)@.len(),
        final(ops)@.subrange(0, old(ops)@.len() as int) == old(ops)@,
        match spec_op_inputs(tpls@, first as int, objs@, old(seq).pc, ctx.bit_len, *ctx.lang, ctx.fixup_names, old(seq).uniq as int) {
            Some((l, i)) => r && spec_extended_by(old(ops)@, final(ops)@, l) && same_varnodes(final(inputs)@, i)
                && final(seq).uniq == old(seq).uniq + l.len(),
            None => !r,
        },
{
    let ghost prev = ops@;
    let ghost pc = seq.pc;
    let ghost u0 = seq.uniq as int;
    let ghost lang = *ctx.lang;
    let ghost bl = ctx.bit_len;
    let ghost mut gl: Seq<OpParts> = Seq::empty();
    let ghost mut gi: Seq<Varnode> = Seq::empty();
    proof {
        let x = spec_op_inputs(tpls@, first as int, objs@, pc, bl, lang, ctx.fixup_names, u0);
        if let Some((l2, i2)) = x {
            assert(gl + l2 =~= l2);
            assert(gi + i2 =~= i2);
        }
        assert(ops@.subrange(0, prev.len() as int) =~= prev);
        assert(inputs@ =~= gi);
    }
    let mut k: usize = first;
    while k < tpls.len()
        invariant
            lang == *ctx.lang,
            bl == ctx.bit_len,
            pc == old(seq).pc,
            pc == *ctx.pc,
            u0 == old(seq).uniq,
            prev == old(ops)@,
            first <= k,
            spec_op_inputs(tpls@, first as int, objs@, pc, bl, lang, ctx.fixup_names, u0)
                == spec_prepend_inputs(gl, gi, spec_op_inputs(tpls@, k as int, objs@, pc, bl, lang, ctx.fixup_names, seq.uniq as int)),
            spec_extended_by(prev, ops@, gl),
            same_varnodes(inputs@, gi),
            seq.pc == pc,
            seq.uniq == u0 + gl.len(),
        decreases tpls@.len() - k,
    {
        let tpl = &tpls[k];
        let ghost step = spec_op_input(tpls@[k as int], objs@, pc, bl, lang, ctx.fixup_names, seq.uniq as int);
        let ghost before = ops@;
        let ghost ub = seq.uniq as int;
        if let Some(idx) = tpl.handle_index() {
            if idx >= objs.len() {
                return false;
            }
            match &objs[idx] {
                PcodeObject::Varnode(vn) => {
                    inputs.push(vn.clone());
                },
                PcodeObject::Handle(h) => {
                    if !h.temp.space.is_dummy() {
                        if seq.uniq == i32::MAX {
                            return false;
                        }
                        let load_inputs = dummy_pointer_pair(&h.pointer);
                        ops.push(Op { seq: *seq, opcode: OpCode::Load, inputs: load_inputs, output: Some(h.temp.clone()) });
                        *seq = seq.next();
                        inputs.push(h.temp.clone());
                    } else {
                        inputs.push(h.pointer.clone());
                    }
                },
                PcodeObject::Dummy => return false,
            }
        } else {
            match build_varnode(tpl, objs, ctx) {
                Some(vn) => inputs.push(vn),
                None => return false,
            }
        }
        proof {
            let (loads, vn) = step.unwrap();
            assert(ub + loads.len() == seq.uniq);
            lemma_prepend_assoc(gl, gi, loads, seq![vn], spec_op_inputs(tpls@, k + 1, objs@, pc, bl, lang, ctx.fixup_names, seq.uniq as int));
            let ngl = gl + loads;
            assert(ops@.subrange(0, prev.len() as int) =~= before.subrange(0, prev.len() as int));
            assert forall|j: int| 0 <= j < ngl.len() implies #[trigger] same_parts(ops@[prev.len() + j], ngl[j]) by {
                if j < gl.len() {
                    assert(ops@[prev.len() + j] == before[prev.len() + j]);
                }
            }
            let ngi = gi + seq![vn];
            assert forall|j: int| 0 <= j < inputs@.len() implies #[trigger] same_varnode(inputs@[j], ngi[j]) by {
                if j < gi.len() {
                    assert(same_varnode(inputs@[j], gi[j]));
                }
            }
            gl = ngl;
            gi = ngi;
        }
        k = k + 1;
    }
    proof {
        assert(gl + Seq::<OpParts>::empty() =~= gl);
        assert(gi + Seq::<Varnode>::empty() =~= gi);
    }
    true
}

/// Builds the op of an op template and any store after it into `ops` (see
/// `spec_op_output`), its loads `gl` and inputs (`gi`) already built.
fn build_op_output(seq: SeqNum, opcode: OpCode, out_tpl: &Option<VarnodeTemplate>, inputs: Vec<Varnode>, objs: &[PcodeObject], ops: &mut Vec<PcodeOp>, ctx: &BuildContext, Ghost(prev): Ghost<Seq<PcodeOp>>, Ghost(gl): Ghost<Seq<OpParts>>, Ghost(gi): Ghost<Seq<Varnode>>) -> (r: bool)
    requires
        spec_extended_by(prev, old(ops)@, gl),
        same_varnodes(inputs@, gi),
        seq.pc == *ctx.pc,
    ensures
        final(ops)@.len() >= prev.len(),
        final(ops)@.subrange(0, prev.len() as int) == prev,
        match spec_op_output(opcode, *out_tpl, gl, gi, seq.uniq as int, objs@, seq.pc, ctx.bit_len, *ctx.lang, ctx.fixup_names) {
            Some(n) => r && spec_extended_by(prev, final(ops)@, n),
            None => !r,
        },
{
    let ghost pc = seq.pc;
    let ghost u = seq.uniq as int;
    let ghost lang = *ctx.lang;
    let ghost bl = ctx.bit_len;
    match out_tpl {
        None => {
            push_fixed(ops, seq, opcode, inputs, None, Ghost(prev), Ghost(gl), Ghost(gi), Ghost(None))
        },
        Some(tpl) => {
            if let Some(idx) = tpl.handle_index() {
                if idx >= objs.len() {
                    return false;
                }
                match &objs[idx] {
                    PcodeObject::Varnode(vn) => {
                        push_fixed(ops, seq, opcode, inputs, Some(vn.clone()), Ghost(prev), Ghost(gl), Ghost(gi), Ghost(Some(*vn)))
                    },
                    PcodeObject::Handle(h) => {
                        if !h.temp.space.is_dummy() {
                            if seq.uniq == i32::MAX {
                                return false;
                            }
                            if !push_fixed(ops, seq, opcode, inputs, Some(h.temp.clone()), Ghost(prev), Ghost(gl), Ghost(gi), Ghost(Some(h.temp))) {
                                return false;
                            }
                            let ghost mid = spec_push_fixed(gl, pc, u, opcode, gi, Some(h.temp)).unwrap();
                            let seq2 = seq.next();
                            let mut store_inputs = dummy_pointer_pair(&h.pointer);
                            store_inputs.push(h.temp.clone());
                            let ghost gst = seq![Varnode { name: None, space: AddressSpace::Dummy, offset: 0, size: 0 }, h.pointer, h.temp];
                            assert(store_inputs@ =~= gst);
                            push_fixed(ops, seq2, OpCode::Store, store_inputs, None, Ghost(prev), Ghost(mid), Ghost(gst), Ghost(None))
                        } else {
                            push_fixed(ops, seq, opcode, inputs, Some(h.pointer.clone()), Ghost(prev), Ghost(gl), Ghost(gi), Ghost(Some(h.pointer)))
                        }
                    },
                    PcodeObject::Dummy => false,
                }
            } else {
                match build_varnode(tpl, objs, ctx) {
                    Some(vn) => {
                        let ghost gvn = spec_build_varnode(*tpl, objs@, pc, bl, lang, ctx.fixup_names).unwrap();
                        push_fixed(ops, seq, opcode, inputs, Some(vn), Ghost(prev), Ghost(gl), Ghost(gi), Ghost(Some(gvn)))
                    },
                    None => false,
                }
            }
        },
    }
}

/// Builds the ops of one op template into `ops` (see `spec_build_pcodeop`). Returns whether
/// the template could be built; where it could not, `ops` may hold some of its ops.
fn build_pcodeop(seq0: SeqNum, op_tpl: &OpTemplate, objs: &[PcodeObject], ops: &mut Vec<PcodeOp>, ctx: &BuildContext) -> (r: bool)
    requires
        seq0.pc == *ctx.pc,
    ensures
        match spec_build_pcodeop(seq0, *op_tpl, objs@, ctx.bit_len, *ctx.lang, ctx.fixup_names) {
            Some(n) => r && spec_extended_by(old(ops)@, final(ops)@, n),
            None => !r && final(ops)@.len() >= old(ops)@.len() && final(ops)@.subrange(0, old(ops)@.len() as int) == old(ops)@,
        },
{
    let ghost prev = ops@;
    let mut seq = seq0;
    let opcode = match OpCode::from_str(op_tpl.code.as_str()) {
        Ok(o) => o,
        Err(_) => return false,
    };
    let mut inputs: Vec<Varnode> = Vec::new();
    let first: usize = if opcode == OpCode::Return { 1 } else { 0 };
    if !build_op_inputs(&op_tpl.inputs, first, objs, ops, &mut seq, &mut inputs, ctx) {
        return false;
    }
    let ghost (gl, gi) = spec_op_inputs(op_tpl.inputs@, first as int, objs@, seq0.pc, ctx.bit_len, *ctx.lang, ctx.fixup_names, seq0.uniq as int).unwrap();
    build_op_output(seq, opcode, &op_tpl.output, inputs, objs, ops, ctx, Ghost(prev), Ghost(gl), Ghost(gi))
}

/// Whether every entry of `order` indexes into `ops`.
pub open spec fn spec_order_valid(order: Seq<usize>, n: nat) -> bool {
    forall|k: int| 0 <= k < order.len() ==> #[trigger] order[k] < n
}

/// Whether `after` keeps `before` as its prefix.
pub open spec fn spec_extends<T>(before: Seq<T>, after: Seq<T>) -> bool {
    after.len() >= before.len() && after.subrange(0, before.len() as int) == before
}

/// The object an operand of a constructor contributes: a varnode for a varnode symbol (with
/// its register name in the register space) or a literal (a constant named by its fixup);
/// `None` otherwise.
pub open spec fn spec_operand_object<'a>(m: MatchedSymbol<'a>, fixup: Option<FixupType>, lang: SleighLanguage, fx: (String, String)) -> Option<PcodeObject> {
    match m {
        MatchedSymbol::Symbol(sym, _) => match sym.body {
            SymbolBody::Varnode(vnode) => Some(PcodeObject::Varnode(Varnode {
                name: if vnode.space == AddressSpace::Register {
                    spec_map_lookup(lang.varnode_map.entries@, vnode.offset, vnode.size)
                } else {
                    None
                },
                space: vnode.space,
                offset: vnode.offset,
                size: vnode.size,
            })),
            _ => None,
        },
        MatchedSymbol::Literal((val, size)) => Some(PcodeObject::Varnode(Varnode {
            name: match fixup {
                Some(FixupType::Start) => Some(fx.0),
                Some(FixupType::End) => Some(fx.1),
                None => None,
            },
            space: AddressSpace::Const,
            offset: val as u64,
            size: size as u64,
        })),
        _ => None,
    }
}

/// What building a resolved symbol gives (see `spec_build_sym`): the parts of the ops it
/// adds, the run order after it, the objects of its operands, the object it exports, and
/// where its ops start in the run order and how many there are.
pub type SymBuild = (Seq<OpParts>, Seq<usize>, Seq<PcodeObject>, Option<PcodeObject>, usize, usize);

/// The object an operand contributes to its constructor's list, the dummy where it gives
/// none.
pub open spec fn spec_or_dummy(o: Option<PcodeObject>) -> PcodeObject {
    match o {
        Some(h) => h,
        None => PcodeObject::Dummy,
    }
}

/// The operands from position `i` on built in turn after ops `added` (the first at
/// position `base`) and with run order `order`: a constructor is built recursively (its
/// ops and run order entries kept, its operands' objects dropped) and contributes the
/// object it exports and the range of its ops in the run order; any other operand
/// contributes its object (see `spec_operand_object`) and an empty range. Gives the ops,
/// run order, objects and ranges after the last operand; `None` where a constructor
/// cannot be built.
pub open spec fn spec_build_operands<'a>(
    ops: Seq<(MatchedSymbol<'a>, Option<FixupType>)>,
    i: int,
    base: int,
    added: Seq<OpParts>,
    order: Seq<usize>,
    objs: Seq<PcodeObject>,
    ranges: Seq<(usize, usize)>,
    pc: Address,
    bit_len: usize,
    lang: SleighLanguage,
    fx: (String, String),
) -> Option<(Seq<OpParts>, Seq<usize>, Seq<PcodeObject>, Seq<(usize, usize)>)>
    decreases ops, ops.len() - i,
{
    if i < 0 || i >= ops.len() {
        Some((added, order, objs, ranges))
    } else {
        let (m, fixup) = ops[i];
        proof {
            assert(decreases_to!(ops => ops[i]));
            assert(decreases_to!(ops[i] => ops[i].0));
        }
        if m is Constructor {
            match spec_build_sym(m, base + added.len(), order, pc, bit_len, lang, fx) {
                Some((a2, o2, _, h, s, n)) => spec_build_operands(ops, i + 1, base, added + a2, o2, objs.push(spec_or_dummy(h)), ranges.push((s, n)), pc, bit_len, lang, fx),
                None => None,
            }
        } else {
            spec_build_operands(ops, i + 1, base, added, order, objs.push(spec_or_dummy(spec_operand_object(m, fixup, lang, fx))), ranges.push((0usize, 0usize)), pc, bit_len, lang, fx)
        }
    }
}

/// `order` with its entries `j` up to `stop` (exclusive) appended in turn, where an entry
/// appended before may be copied again; `None` where `j` reaches past the list.
pub open spec fn spec_copy_order(order: Seq<usize>, j: int, stop: int) -> Option<Seq<usize>>
    decreases stop - j,
{
    if j >= stop {
        Some(order)
    } else if j < 0 || j >= order.len() {
        None
    } else {
        spec_copy_order(order.push(order[j]), j + 1, stop)
    }
}

/// The positions `start` up to `start + n` (exclusive).
pub open spec fn spec_positions(start: int, n: int) -> Seq<usize> {
    Seq::new(n as nat, |j: int| (start + j) as usize)
}

/// One op statement of a constructor template built after ops `added`, with run order
/// `order` and `num_ops` of the constructor's ops counted: `BUILD n` appends the run order
/// entries of operand `n`'s ops (its range in `ranges`); any other op template builds its
/// ops (see `spec_build_pcodeop`), numbered from `base` plus the ops counted, and appends
/// their positions. Gives the ops, run order and count after it; `None` where the template
/// cannot be built, a `BUILD` has no operand or names a missing one, or a count overflows.
#[verifier::opaque]
pub open spec fn spec_op_stmt(
    t: OpTemplate,
    base: int,
    objs: Seq<PcodeObject>,
    ranges: Seq<(usize, usize)>,
    added: Seq<OpParts>,
    order: Seq<usize>,
    num_ops: usize,
    pc: Address,
    bit_len: usize,
    lang: SleighLanguage,
    fx: (String, String),
) -> Option<(Seq<OpParts>, Seq<usize>, usize)> {
    if t.code@ == "BUILD"@ {
        if t.inputs@.len() == 0 {
            None
        } else {
            match t.inputs@[0].offset_template {
                ConstTemplate::Val(op_idx) => if op_idx >= ranges.len() {
                    None
                } else {
                    let (s, sz) = ranges[op_idx as int];
                    if s + sz > usize::MAX || num_ops + sz > usize::MAX {
                        None
                    } else {
                        match spec_copy_order(order, s as int, s + sz) {
                            Some(o2) => Some((added, o2, (num_ops + sz) as usize)),
                            None => None,
                        }
                    }
                },
                _ => Some((added, order, num_ops)),
            }
        }
    } else if base + num_ops > usize::MAX {
        None
    } else {
        let seq = SeqNum { pc, uniq: (base + num_ops) as i32 };
        match spec_build_pcodeop(seq, t, objs, bit_len, lang, fx) {
            Some(new) => if num_ops + new.len() > usize::MAX {
                None
            } else {
                Some((added + new, order + spec_positions(base + added.len(), new.len() as int), (num_ops + new.len()) as usize))
            },
            None => None,
        }
    }
}

/// The statements of a constructor template from position `k` on built in turn (see
/// `spec_op_stmt`; handle statements build nothing here), the constructor's first op at
/// position `base`. The first op statement fixes where the constructor's ops start in the
/// run order. Gives the ops, run order, start and count after the last statement.
pub open spec fn spec_build_stmts(
    stmts: Seq<ConsTemplate>,
    k: int,
    base: int,
    objs: Seq<PcodeObject>,
    ranges: Seq<(usize, usize)>,
    added: Seq<OpParts>,
    order: Seq<usize>,
    built_op: bool,
    ops_start: usize,
    num_ops: usize,
    pc: Address,
    bit_len: usize,
    lang: SleighLanguage,
    fx: (String, String),
) -> Option<(Seq<OpParts>, Seq<usize>, usize, usize)>
    decreases stmts.len() - k,
{
    if k < 0 || k >= stmts.len() {
        Some((added, order, ops_start, num_ops))
    } else {
        match stmts[k] {
            ConsTemplate::Op(t) => {
                let start: usize = if built_op { ops_start } else { order.len() as usize };
                match spec_op_stmt(t, base, objs, ranges, added, order, num_ops, pc, bit_len, lang, fx) {
                    Some((a, o, n)) => spec_build_stmts(stmts, k + 1, base, objs, ranges, a, o, true, start, n, pc, bit_len, lang, fx),
                    None => None,
                }
            },
            ConsTemplate::Handle(_) => spec_build_stmts(stmts, k + 1, base, objs, ranges, added, order, built_op, ops_start, num_ops, pc, bit_len, lang, fx),
        }
    }
}

/// The object the handle statements of a constructor template from position `k` on export
/// (the last one counts, `handle` where there is none); `None` where one cannot be built.
pub open spec fn spec_build_handles(stmts: Seq<ConsTemplate>, k: int, objs: Seq<PcodeObject>, handle: Option<PcodeObject>, pc: Address, bit_len: usize, lang: SleighLanguage, fx: (String, String)) -> Option<Option<PcodeObject>>
    decreases stmts.len() - k,
{
    if k < 0 || k >= stmts.len() {
        Some(handle)
    } else {
        match stmts[k] {
            ConsTemplate::Handle(ht) => match spec_build_handle(ht, objs, pc, bit_len, lang, fx) {
                Some(h) => spec_build_handles(stmts, k + 1, objs, Some(h), pc, bit_len, lang, fx),
                None => None,
            },
            ConsTemplate::Op(_) => spec_build_handles(stmts, k + 1, objs, handle, pc, bit_len, lang, fx),
        }
    }
}

/// What building a resolved symbol gives, its first op at position `base` and with the run
/// order `order` so far (see `SymBuild`): a constructor builds its operands (see
/// `spec_build_operands`), then its template's op statements over their objects (see
/// `spec_build_stmts`), then exports what its handle statements give (see
/// `spec_build_handles`); any other symbol builds nothing. `None` where a part cannot be
/// built or the constructor has no template.
pub open spec fn spec_build_sym<'a>(m: MatchedSymbol<'a>, base: int, order: Seq<usize>, pc: Address, bit_len: usize, lang: SleighLanguage, fx: (String, String)) -> Option<SymBuild>
    decreases m, 0int,
{
    match m {
        MatchedSymbol::Constructor((ct, operands)) => {
            proof {
                let pair = (ct, operands);
                assert(decreases_to!(m => pair));
                assert(decreases_to!(pair => operands));
                assert(decreases_to!(operands => operands@));
            }
            match spec_build_operands(operands@, 0, base, Seq::empty(), order, Seq::empty(), Seq::empty(), pc, bit_len, lang, fx) {
                None => None,
                Some((added, o1, objs, ranges)) => match ct.template {
                    None => None,
                    Some(tpl) => match spec_build_stmts(tpl.statements@, 0, base, objs, ranges, added, o1, false, 0, 0, pc, bit_len, lang, fx) {
                        None => None,
                        Some((added2, o2, s, n)) => match spec_build_handles(tpl.statements@, 0, objs, None, pc, bit_len, lang, fx) {
                            Some(h) => Some((added2, o2, objs, h, s, n)),
                            None => None,
                        },
                    },
                },
            }
        },
        _ => Some((Seq::empty(), order, Seq::empty(), None, 0, 0)),
    }
}

/// The object an operand of a constructor contributes (see `spec_operand_object`).
fn operand_object(op: &MatchedSymbol, fixup_type: Option<FixupType>, ctx: &BuildContext) -> (r: Option<PcodeObject>)
    ensures
        r == spec_operand_object(*op, fixup_type, *ctx.lang, ctx.fixup_names),
{
    match op {
        MatchedSymbol::Symbol(sym, _) => {
            if let SymbolBody::Varnode(vnode) = &sym.body {
                let name = if vnode.space == AddressSpace::Register {
                    ctx.lang.varnode_map.get(vnode.offset, vnode.size)
                } else {
                    None
                };
                Some(PcodeObject::Varnode(Varnode { name, space: vnode.space, offset: vnode.offset, size: vnode.size }))
            } else {
                None
            }
        },
        MatchedSymbol::Literal((val, size)) => {
            let name = match fixup_type {
                Some(FixupType::Start) => Some(ctx.fixup_names.0.clone()),
                Some(FixupType::End) => Some(ctx.fixup_names.1.clone()),
                None => None,
            };
            Some(PcodeObject::Varnode(Varnode { name, space: AddressSpace::Const, offset: *val as u64, size: *size as u64 }))
        },
        _ => None,
    }
}

proof fn lemma_extended_trans(p: Seq<PcodeOp>, a: Seq<PcodeOp>, b: Seq<PcodeOp>, x: Seq<OpParts>, y: Seq<OpParts>)
    requires
        spec_extended_by(p, a, x),
        spec_extended_by(a, b, y),
    ensures
        spec_extended_by(p, b, x + y),
{
    assert(b.subrange(0, p.len() as int) =~= a.subrange(0, p.len() as int)) by {
        assert forall|j: int| 0 <= j < p.len() implies b[j] == a[j] by {
            assert(b.subrange(0, a.len() as int)[j] == a[j]);
        }
    }
    assert forall|k: int| 0 <= k < (x + y).len() implies #[trigger] same_parts(b[p.len() + k], (x + y)[k]) by {
        if k < x.len() {
            assert(b.subrange(0, a.len() as int)[p.len() + k] == a[p.len() + k]);
            assert(same_parts(a[p.len() + k], x[k]));
        } else {
            assert(same_parts(b[a.len() + (k - x.len())], y[k - x.len()]));
        }
    }
}

/// Copies the run order entries `start` up to `start + sz` (exclusive) to its end (see
/// `spec_copy_order`); `false` where an entry is missing.
fn copy_order(order: &mut Vec<usize>, start: usize, sz: usize, Ghost(n_ops): Ghost<nat>) -> (r: bool)
    requires
        start + sz <= usize::MAX,
        
    ensures
        spec_order_valid(old(order)@, n_ops) ==> spec_order_valid(final(order)@, n_ops),
        spec_extends(old(order)@, final(order)@),
        r ==> final(order)@.len() == old(order)@.len() + sz,
        match spec_copy_order(old(order)@, start as int, start + sz) {
            Some(o) => r && final(order)@ == o,
            None => !r && final(order)@.len() >= old(order)@.len(),
        },
{
    let stop = start + sz;
    let mut j = start;
    assert(order@.subrange(0, order@.len() as int) =~= order@);
    while j < stop
        invariant
            stop == start + sz,
            start <= j <= stop,
            spec_order_valid(old(order)@, n_ops) ==> spec_order_valid(order@, n_ops),
            spec_extends(old(order)@, order@),
            spec_copy_order(old(order)@, start as int, stop as int) == spec_copy_order(order@, j as int, stop as int),
            order@.len() == old(order)@.len() + (j - start),
        decreases stop - j,
    {
        if j >= order.len() {
            return false;
        }
        let e = order[j];
        let ghost before = order@;
        order.push(e);
        assert(order@.subrange(0, old(order)@.len() as int) =~= before.subrange(0, old(order)@.len() as int));
        j = j + 1;
    }
    true
}

/// Builds one op statement of a constructor template (see `spec_op_stmt`) over its operand
/// objects `objs` and op ranges `ranges`, its first op at position `base`, the ops `added`
/// built since then. Returns the new count.
fn build_op_stmt(t: &OpTemplate, base: usize, objs: &[PcodeObject], ranges: &Vec<(usize, usize)>, ops: &mut Vec<PcodeOp>, order: &mut Vec<usize>, num_ops: usize, ctx: &BuildContext, Ghost(prev): Ghost<Seq<PcodeOp>>, Ghost(added): Ghost<Seq<OpParts>>) -> (r: Option<usize>)
    requires
        spec_extended_by(prev, old(ops)@, added),
        base == prev.len(),
        
    ensures
        spec_order_valid(old(order)@, old(ops)@.len()) ==> spec_order_valid(final(order)@, final(ops)@.len()),
        spec_extends(old(ops)@, final(ops)@),
        spec_extends(old(order)@, final(order)@),
        r is Some ==> final(order)@.len() - old(order)@.len() == r.unwrap() - num_ops,
        match spec_op_stmt(*t, base as int, objs@, ranges@, added, old(order)@, num_ops, *ctx.pc, ctx.bit_len, *ctx.lang, ctx.fixup_names) {
            Some((a, o, n)) => r == Some(n) && spec_extended_by(prev, final(ops)@, a) && final(order)@ == o,
            None => r is None,
        },
{
    let ghost bl = ctx.bit_len;
    let ghost lang = *ctx.lang;
    let ghost fx = ctx.fixup_names;
    reveal(spec_op_stmt);
    assert(ops@.subrange(0, ops@.len() as int) =~= ops@);
    assert(order@.subrange(0, order@.len() as int) =~= order@);
    if str_eq(t.code.as_str(), "BUILD") {
        if t.inputs.len() == 0 {
            return None;
        }
        if let ConstTemplate::Val(op_idx) = &t.inputs[0].offset_template {
            if *op_idx >= ranges.len() as u64 {
                return None;
            }
            let (start, sz) = ranges[*op_idx as usize];
            if start > usize::MAX - sz || num_ops > usize::MAX - sz {
                return None;
            }
            if !copy_order(order, start, sz, Ghost(ops@.len())) {
                return None;
            }
            Some(num_ops + sz)
        } else {
            Some(num_ops)
        }
    } else {
        let start = ops.len();
        if base > usize::MAX - num_ops {
            return None;
        }
        let total = base + num_ops;
        let uniq: i32 = #[verifier::truncate] (total as i32);
        let seq = SeqNum { pc: *ctx.pc, uniq };
        let ghost ops_before = ops@;
        let built = build_pcodeop(seq, t, objs, ops, ctx);
        proof {
            assert(ops@.subrange(0, old(ops)@.len() as int) =~= ops_before.subrange(0, old(ops)@.len() as int));
        }
        if !built {
            return None;
        }
        let ghost new = spec_build_pcodeop(seq, *t, objs@, bl, lang, fx).unwrap();
        proof {
            lemma_extended_trans(prev, ops_before, ops@, added, new);
        }
        let end = ops.len();
        if num_ops > usize::MAX - (end - start) {
            return None;
        }
        let ghost order_before = order@;
        let mut j = start;
        assert(order@ =~= order_before + spec_positions(start as int, 0));
        while j < end
            invariant
                start <= j <= end == ops@.len(),
                spec_extends(old(order)@, order@),
                spec_order_valid(old(order)@, old(ops)@.len()) ==> spec_order_valid(order@, ops@.len()),
                order@ == order_before + spec_positions(start as int, j - start),
            decreases end - j,
        {
            let ghost before = order@;
            order.push(j);
            assert(order@.subrange(0, old(order)@.len() as int) =~= before.subrange(0, old(order)@.len() as int));
            assert(order@ =~= order_before + spec_positions(start as int, j + 1 - start));
            j = j + 1;
        }
        Some(num_ops + (end - start))
    }
}

/// Builds the op statements of a constructor template (see `spec_build_stmts`) over its
/// operand objects `objs` and op ranges `ranges`, its first op at position `base`, the ops
/// `added0` built since then.
fn build_stmts(stmts: &Vec<ConsTemplate>, base: usize, objs: &[PcodeObject], ranges: &Vec<(usize, usize)>, ops: &mut Vec<PcodeOp>, order: &mut Vec<usize>, ctx: &BuildContext, Ghost(prev): Ghost<Seq<PcodeOp>>, Ghost(added0): Ghost<Seq<OpParts>>) -> (r: Option<(usize, usize)>)
    requires
        spec_extended_by(prev, old(ops)@, added0),
        base == prev.len(),
        
    ensures
        spec_order_valid(old(order)@, old(ops)@.len()) ==> spec_order_valid(final(order)@, final(ops)@.len()),
        spec_extends(old(ops)@, final(ops)@),
        spec_extends(old(order)@, final(order)@),
        r is Some ==> r.unwrap().0 + r.unwrap().1 <= final(order)@.len(),
        r is Some && (exists|j: int| 0 <= j < stmts@.len() && (#[trigger] stmts@[j]) is Op)
            ==> r.unwrap().0 + r.unwrap().1 == final(order)@.len(),
        match spec_build_stmts(stmts@, 0, base as int, objs@, ranges@, added0, old(order)@, false, 0, 0, *ctx.pc, ctx.bit_len, *ctx.lang, ctx.fixup_names) {
            Some((a, o, s, n)) => r == Some((s, n)) && spec_extended_by(prev, final(ops)@, a) && final(order)@ == o,
            None => r is None,
        },
{
    let ghost pc = *ctx.pc;
    let ghost bl = ctx.bit_len;
    let ghost lang = *ctx.lang;
    let ghost fx = ctx.fixup_names;
    let ghost mut gadded = added0;
    let mut built_op = false;
    let mut ops_start: usize = 0;
    let mut num_ops: usize = 0;
    assert(ops@.subrange(0, ops@.len() as int) =~= ops@);
    assert(order@.subrange(0, order@.len() as int) =~= order@);
    let mut k: usize = 0;
    while k < stmts.len()
        invariant
            pc == *ctx.pc,
            bl == ctx.bit_len,
            lang == *ctx.lang,
            fx == ctx.fixup_names,
            base == prev.len(),
            k <= stmts@.len(),
            spec_extends(old(ops)@, ops@),
            spec_extends(old(order)@, order@),
            spec_order_valid(old(order)@, old(ops)@.len()) ==> spec_order_valid(order@, ops@.len()),
            built_op ==> ops_start + num_ops == order@.len(),
            built_op == (exists|j: int| 0 <= j < k && (#[trigger] stmts@[j]) is Op),
            !built_op ==> ops_start == 0 && num_ops == 0,
            spec_extended_by(prev, ops@, gadded),
            spec_build_stmts(stmts@, 0, base as int, objs@, ranges@, added0, old(order)@, false, 0, 0, pc, bl, lang, fx)
                == spec_build_stmts(stmts@, k as int, base as int, objs@, ranges@, gadded, order@, built_op, ops_start, num_ops, pc, bl, lang, fx),
        decreases stmts@.len() - k,
    {
        if let ConsTemplate::Op(op_template) = &stmts[k] {
            if !built_op {
                ops_start = order.len();
                built_op = true;
            }
            let ghost ops_before = ops@;
            let ghost order_before = order@;
            let ghost step = spec_op_stmt(*op_template, base as int, objs@, ranges@, gadded, order@, num_ops, pc, bl, lang, fx);
            let res = build_op_stmt(op_template, base, objs, ranges, ops, order, num_ops, ctx, Ghost(prev), Ghost(gadded));
            proof {
                assert(ops@.subrange(0, old(ops)@.len() as int) =~= ops_before.subrange(0, old(ops)@.len() as int));
                assert(order@.subrange(0, old(order)@.len() as int) =~= order_before.subrange(0, old(order)@.len() as int));
            }
            match res {
                Some(n) => {
                    proof {
                        gadded = step.unwrap().0;
                    }
                    num_ops = n;
                },
                None => return None,
            }
        }
        k = k + 1;
    }
    Some((ops_start, num_ops))
}

/// The object the handle statements of a constructor template export (see
/// `spec_build_handles`).
fn build_handles(stmts: &Vec<ConsTemplate>, objs: &[PcodeObject], ctx: &BuildContext) -> (r: Option<Option<PcodeObject>>)
    ensures
        r == spec_build_handles(stmts@, 0, objs@, None, *ctx.pc, ctx.bit_len, *ctx.lang, ctx.fixup_names),
{
    let mut handle: Option<PcodeObject> = None;
    let mut k: usize = 0;
    while k < stmts.len()
        invariant
            k <= stmts@.len(),
            spec_build_handles(stmts@, 0, objs@, None, *ctx.pc, ctx.bit_len, *ctx.lang, ctx.fixup_names)
                == spec_build_handles(stmts@, k as int, objs@, handle, *ctx.pc, ctx.bit_len, *ctx.lang, ctx.fixup_names),
        decreases stmts@.len() - k,
    {
        if let ConsTemplate::Handle(handle_template) = &stmts[k] {
            match build_handle(handle_template, objs, ctx) {
                Some(h) => handle = Some(h),
                None => return None,
            }
        }
        k = k + 1;
    }
    Some(handle)
}

/// Builds the operands of a constructor in turn (see `spec_build_operands`): constructors
/// recursively, the others as their objects; `built_objects` receives the operands'
/// objects. Returns the ranges of the operands' ops in `order`; `None` where a constructor
/// cannot be built.
fn build_operands(
    operands: &Vec<(MatchedSymbol, Option<FixupType>)>,
    built_pcodeops: &mut Vec<PcodeOp>,
    built_objects: &mut Vec<PcodeObject>,
    order: &mut Vec<usize>,
    ctx: &BuildContext,
) -> (r: Option<Vec<(usize, usize)>>)
    ensures
        spec_extends(old(built_pcodeops)@, final(built_pcodeops)@),
        spec_extends(old(order)@, final(order)@),
        spec_order_valid(old(order)@, old(built_pcodeops)@.len()) ==> spec_order_valid(final(order)@, final(built_pcodeops)@.len()),
        r is Some ==> final(built_objects)@.len() == old(built_objects)@.len() + operands@.len(),
        match spec_build_operands(operands@, 0, old(built_pcodeops)@.len() as int, Seq::empty(), old(order)@, Seq::empty(), Seq::empty(), *ctx.pc, ctx.bit_len, *ctx.lang, ctx.fixup_names) {
            Some((added, o, objs, ranges)) => r is Some && r.unwrap()@ == ranges
                && spec_extended_by(old(built_pcodeops)@, final(built_pcodeops)@, added)
                && final(order)@ == o
                && final(built_objects)@ == old(built_objects)@ + objs,
            None => r is None,
        },
    decreases operands, 0int,
{
    let ghost pc = *ctx.pc;
    let ghost bl = ctx.bit_len;
    let ghost lang = *ctx.lang;
    let ghost fx = ctx.fixup_names;
    let ghost prev = built_pcodeops@;
    let start_op_idx = built_pcodeops.len();
    assert(built_pcodeops@.subrange(0, built_pcodeops@.len() as int) =~= built_pcodeops@);
    assert(order@.subrange(0, order@.len() as int) =~= order@);
    assert(built_objects@ =~= old(built_objects)@ + Seq::<PcodeObject>::empty());
    proof {
        assert(decreases_to!(*operands => operands@));
    }
    let ghost mut gadded: Seq<OpParts> = Seq::empty();
    let ghost mut gobjs: Seq<PcodeObject> = Seq::empty();
    let mut sub_op_ranges: Vec<(usize, usize)> = Vec::new();
    let mut i: usize = 0;
    while i < operands.len()
        invariant
            pc == *ctx.pc,
            bl == ctx.bit_len,
            lang == *ctx.lang,
            fx == ctx.fixup_names,
            prev == old(built_pcodeops)@,
            decreases_to!(*operands => operands@),
            i <= operands@.len(),
            sub_op_ranges@.len() == i,
            gobjs.len() == i,
            built_objects@ == old(built_objects)@ + gobjs,
            spec_extends(old(built_pcodeops)@, built_pcodeops@),
            spec_extends(old(order)@, order@),
            start_op_idx == old(built_pcodeops)@.len(),
            spec_order_valid(old(order)@, old(built_pcodeops)@.len()) ==> spec_order_valid(order@, built_pcodeops@.len()),
            spec_extended_by(prev, built_pcodeops@, gadded),
            spec_build_operands(operands@, 0, start_op_idx as int, Seq::empty(), old(order)@, Seq::empty(), Seq::empty(), pc, bl, lang, fx)
                == spec_build_operands(operands@, i as int, start_op_idx as int, gadded, order@, gobjs, sub_op_ranges@, pc, bl, lang, fx),
        decreases operands@.len() - i,
    {
        let (op, fixup_type) = &operands[i];
        let op_handle: Option<PcodeObject>;
        let mut sub_op_start: usize = 0;
        let mut sub_op_size: usize = 0;
        let ghost ops_before = built_pcodeops@;
        let ghost order_before = order@;
        let ghost objs_before = built_objects@;
        if let MatchedSymbol::Constructor(_) = op {
            proof {
                assert(decreases_to!(operands@ => operands@[i as int]));
                assert(decreases_to!(operands@[i as int] => operands@[i as int].0));
            }
            let sub_obj_start = built_objects.len();
            let res = _build_sym(op, built_pcodeops, built_objects, order, ctx);
            proof {
                assert(built_pcodeops@.subrange(0, old(built_pcodeops)@.len() as int) =~= ops_before.subrange(0, old(built_pcodeops)@.len() as int));
                assert(order@.subrange(0, old(order)@.len() as int) =~= order_before.subrange(0, old(order)@.len() as int));
            }
            match res {
                Some((h, s, n)) => {
                    op_handle = h;
                    sub_op_start = s;
                    sub_op_size = n;
                },
                None => return None,
            }
            proof {
                let (a2, o2, objs2, h2, s2, n2) = spec_build_sym(*op, ops_before.len() as int, order_before, pc, bl, lang, fx).unwrap();
                lemma_extended_trans(prev, ops_before, built_pcodeops@, gadded, a2);
                gadded = gadded + a2;
            }
            built_objects.truncate(sub_obj_start);
            assert(built_objects@ =~= objs_before);
        } else {
            op_handle = operand_object(op, *fixup_type, ctx);
        }
        sub_op_ranges.push((sub_op_start, sub_op_size));
        match op_handle {
            Some(h) => built_objects.push(h),
            None => built_objects.push(PcodeObject::Dummy),
        }
        proof {
            gobjs = gobjs.push(spec_or_dummy(op_handle));
            assert(built_objects@ =~= old(built_objects)@ + gobjs);
        }
        i = i + 1;
    }
    Some(sub_op_ranges)
}

/// Builds the p-code of a resolved constructor into `built_pcodeops` (see `spec_build_sym`):
/// first its operands (sub-constructors recursively), then its op templates in order, where
/// `BUILD n` places the ops of operand `n`. `order` receives the indices of the ops in the
/// order they are to run, and `built_objects` the objects of the constructor's operands.
/// Returns the object the constructor exports, and where its ops start in `order` and how
/// many there are; `None` where the templates cannot be built.
pub fn _build_sym(
    matched_sym: &MatchedSymbol,
    built_pcodeops: &mut Vec<PcodeOp>,
    built_objects: &mut Vec<PcodeObject>,
    order: &mut Vec<usize>,
    ctx: &BuildContext,
) -> (r: Option<(Option<PcodeObject>, usize, usize)>)
    ensures
        spec_extends(old(built_pcodeops)@, final(built_pcodeops)@),
        spec_extends(old(order)@, final(order)@),
        spec_order_valid(old(order)@, old(built_pcodeops)@.len()) ==> spec_order_valid(final(order)@, final(built_pcodeops)@.len()),
        r is Some ==> r.unwrap().1 + r.unwrap().2 <= final(order)@.len(),
        !(*matched_sym is Constructor) ==> r == Some((None::<PcodeObject>, 0usize, 0usize))
            && final(built_pcodeops)@ == old(built_pcodeops)@ && final(order)@ == old(order)@
            && final(built_objects)@ == old(built_objects)@,
        *matched_sym matches MatchedSymbol::Constructor((ct, operands)) ==> (r is Some
            ==> final(built_objects)@.len() == old(built_objects)@.len() + operands@.len()),
        *matched_sym matches MatchedSymbol::Constructor((ct, operands)) ==> (r is Some && ct.template is Some
            && (exists|j: int| 0 <= j < ct.template.unwrap().statements@.len() && (#[trigger] ct.template.unwrap().statements@[j]) is Op)
            ==> r.unwrap().1 + r.unwrap().2 == final(order)@.len()),
        match spec_build_sym(*matched_sym, old(built_pcodeops)@.len() as int, old(order)@, *ctx.pc, ctx.bit_len, *ctx.lang, ctx.fixup_names) {
            Some((added, o, objs, h, s, n)) => r == Some((h, s, n))
                && spec_extended_by(old(built_pcodeops)@, final(built_pcodeops)@, added)
                && final(order)@ == o
                && final(built_objects)@ == old(built_objects)@ + objs,
            None => r is None,
        },
    decreases matched_sym, 1int,
{
    let ghost prev = built_pcodeops@;
    let start_op_idx = built_pcodeops.len();
    let start_obj_idx = built_objects.len();
    assert(built_pcodeops@.subrange(0, built_pcodeops@.len() as int) =~= built_pcodeops@);
    assert(order@.subrange(0, order@.len() as int) =~= order@);
    if let MatchedSymbol::Constructor((ct, operands)) = matched_sym {
        let ghost pair = (*ct, *operands);
        proof {
            assert(decreases_to!(*matched_sym => pair));
            assert(decreases_to!(pair => *operands));
        }
        let ghost ops0 = built_pcodeops@;
        let ghost order0 = order@;
        let res = build_operands(operands, built_pcodeops, built_objects, order, ctx);
        let sub_op_ranges = match res {
            Some(r) => r,
            None => return None,
        };
        let ghost (gadded, o1, gobjs, granges) = spec_build_operands(operands@, 0, start_op_idx as int, Seq::empty(), order0, Seq::empty(), Seq::empty(), *ctx.pc, ctx.bit_len, *ctx.lang, ctx.fixup_names).unwrap();
        let template = match &ct.template {
            Some(t) => t,
            None => return None,
        };
        let objs = vstd::slice::slice_subrange(built_objects.as_slice(), start_obj_idx, built_objects.len());
        assert(objs@ =~= gobjs);
        let ghost ops1 = built_pcodeops@;
        let ghost order1 = order@;
        let res2 = build_stmts(&template.statements, start_op_idx, objs, &sub_op_ranges, built_pcodeops, order, ctx, Ghost(prev), Ghost(gadded));
        proof {
            assert(built_pcodeops@.subrange(0, ops0.len() as int) =~= ops1.subrange(0, ops0.len() as int));
            assert(order@.subrange(0, order0.len() as int) =~= order1.subrange(0, order0.len() as int));
        }
        let (ops_start, num_ops) = match res2 {
            Some(x) => x,
            None => return None,
        };
        let handle = match build_handles(&template.statements, objs, ctx) {
            Some(h) => h,
            None => return None,
        };
        Some((handle, ops_start, num_ops))
    } else {
        assert(built_objects@ =~= old(built_objects)@ + Seq::<PcodeObject>::empty());
        Some((None, 0, 0))
    }
}

/// Swaps two elements of a vector (`<[T]>::swap`).
#[verifier::external_body]
fn swap_elems<T>(data: &mut Vec<T>, a: usize, b: usize)
    requires
        a < old(data)@.len(),
        b < old(data)@.len(),
    ensures
        final(data)@ == old(data)@.update(a as int, old(data)@[b as int]).update(b as int, old(data)@[a as int]),
{
    data.swap(a, b);
}

/// Whether `p` is a permutation of `0..n`.
pub open spec fn spec_is_permutation(p: Seq<usize>, n: nat) -> bool {
    &&& p.len() == n
    &&& forall|i: int| 0 <= i < n ==> #[trigger] p[i] < n
    &&& forall|i: int, j: int| 0 <= i < n && 0 <= j < n && i != j ==> #[trigger] p[i] != #[trigger] p[j]
}

/// How many of the first `k` positions are not yet in place.
pub open spec fn spec_count_unfixed(ind: Seq<usize>, k: int) -> nat
    decreases k,
{
    if k <= 0 {
        0
    } else {
        spec_count_unfixed(ind, k - 1) + if ind[k - 1] != (k - 1) as usize { 1nat } else { 0nat }
    }
}

proof fn lemma_count_fix(ind: Seq<usize>, c: int, k: int)
    requires
        0 <= c < ind.len(),
        ind[c] != c as usize,
        0 <= k <= ind.len(),
    ensures
        spec_count_unfixed(ind.update(c, c as usize), k) == spec_count_unfixed(ind, k) - (if c < k { 1int } else { 0int }),
    decreases k,
{
    if k > 0 {
        lemma_count_fix(ind, c, k - 1);
    }
}

proof fn lemma_count_positive(ind: Seq<usize>, c: int, k: int)
    requires
        0 <= c < k <= ind.len(),
        ind[c] != c as usize,
    ensures
        spec_count_unfixed(ind, k) >= 1,
    decreases k,
{
    if c < k - 1 {
        lemma_count_positive(ind, c, k - 1);
    }
}

/// Reorders `data` in place so that position `i` holds what was at `indices[i]`, following
/// the cycles of the permutation.
pub fn sort_by_indices<T>(data: &mut Vec<T>, indices: Vec<usize>)
    requires
        spec_is_permutation(indices@, old(data)@.len()),
    ensures
        final(data)@.len() == old(data)@.len(),
        forall|i: int| 0 <= i < old(data)@.len() ==> #[trigger] final(data)@[i] == old(data)@[indices@[i] as int],
{
    let ghost p = indices@;
    let ghost d0 = data@;
    let n = data.len();
    let mut indices = indices;
    let mut idx: usize = 0;
    while idx < n
        invariant
            n == data@.len() == d0.len() == indices@.len() == p.len(),
            spec_is_permutation(p, n as nat),
            idx <= n,
            forall|i: int| 0 <= i < n ==> #[trigger] indices@[i] == i as usize || indices@[i] == p[i],
            forall|i: int| 0 <= i < n && indices@[i] == i as usize ==> #[trigger] data@[i] == d0[p[i] as int],
            forall|i: int| 0 <= i < n && indices@[i] != i as usize ==> #[trigger] data@[i] == d0[i],
            forall|i: int| 0 <= i < n && #[trigger] indices@[i] != i as usize ==> indices@[p[i] as int] != p[i],
            forall|i: int| 0 <= i < idx ==> #[trigger] indices@[i] == i as usize,
        decreases n - idx,
    {
        if indices[idx] != idx {
            let ghost c0 = idx as int;
            let mut current_idx = idx;
            loop
                invariant_except_break
                    n == data@.len() == d0.len() == indices@.len() == p.len(),
                    spec_is_permutation(p, n as nat),
                    idx < n,
                    0 <= c0 < n,
                    c0 == idx,
                    current_idx < n,
                    forall|i: int| 0 <= i < n ==> #[trigger] indices@[i] == i as usize || indices@[i] == p[i],
                    indices@[current_idx as int] != current_idx,
                    data@[current_idx as int] == d0[c0],
                    forall|i: int| 0 <= i < n && i != current_idx && indices@[i] == i as usize ==> #[trigger] data@[i] == d0[p[i] as int],
                    forall|i: int| 0 <= i < n && i != current_idx && indices@[i] != i as usize ==> #[trigger] data@[i] == d0[i],
                    forall|i: int| 0 <= i < n && #[trigger] indices@[i] != i as usize && indices@[p[i] as int] == p[i] ==> p[i] == c0,
                    current_idx != c0 ==> forall|i: int| 0 <= i < n && #[trigger] p[i] == current_idx ==> indices@[i] == i as usize,
                    indices@[c0] == c0 || current_idx == c0,
                    current_idx == c0 ==> forall|i: int| 0 <= i < n && #[trigger] indices@[i] != i as usize ==> indices@[p[i] as int] != p[i],
                    forall|i: int| 0 <= i < idx ==> #[trigger] indices@[i] == i as usize,
                ensures
                    n == data@.len() == d0.len() == indices@.len() == p.len(),
                    forall|i: int| 0 <= i < n ==> #[trigger] indices@[i] == i as usize || indices@[i] == p[i],
                    forall|i: int| 0 <= i < n && indices@[i] == i as usize ==> #[trigger] data@[i] == d0[p[i] as int],
                    forall|i: int| 0 <= i < n && indices@[i] != i as usize ==> #[trigger] data@[i] == d0[i],
                    forall|i: int| 0 <= i < n && #[trigger] indices@[i] != i as usize ==> indices@[p[i] as int] != p[i],
                    forall|i: int| 0 <= i <= idx ==> #[trigger] indices@[i] == i as usize,
                decreases spec_count_unfixed(indices@, n as int),
            {
                let target_idx = indices[current_idx];
                proof {
                    lemma_count_fix(indices@, current_idx as int, n as int);
                }
                let ghost old_ind = indices@;
                indices.set(current_idx, current_idx);
                if indices[target_idx] == target_idx {
                    assert(target_idx == c0);
                    break;
                }
                swap_elems(data, current_idx, target_idx);
                current_idx = target_idx;
            }
        }
        idx = idx + 1;
    }
}

/// Whether `p` is a permutation of `0..n`.
fn check_permutation(p: &Vec<usize>, n: usize) -> (r: bool)
    ensures
        r == spec_is_permutation(p@, n as nat),
{
    if p.len() != n {
        return false;
    }
    let mut seen: Vec<bool> = Vec::new();
    let mut k: usize = 0;
    while k < n
        invariant
            k <= n,
            seen@.len() == k,
            forall|v: int| 0 <= v < k ==> !#[trigger] seen@[v],
        decreases n - k,
    {
        seen.push(false);
        k = k + 1;
    }
    let mut i: usize = 0;
    while i < n
        invariant
            p@.len() == n,
            seen@.len() == n,
            i <= n,
            forall|j: int| 0 <= j < i ==> #[trigger] p@[j] < n,
            forall|j: int| 0 <= j < i ==> #[trigger] seen@[p@[j] as int],
            forall|v: int| 0 <= v < n && #[trigger] seen@[v] ==> exists|j: int| 0 <= j < i && p@[j] == v,
            forall|a: int, b: int| 0 <= a < i && 0 <= b < i && a != b ==> #[trigger] p@[a] != #[trigger] p@[b],
        decreases n - i,
    {
        let v = p[i];
        if v >= n {
            return false;
        }
        if seen[v] {
            let ghost j = choose|j: int| 0 <= j < i && p@[j] == v;
            assert(p@[j] == p@[i as int]);
            return false;
        }
        seen.set(v, true);
        i = i + 1;
    }
    true
}

/// The value that the latest entry for `k` gives, if any.
pub open spec fn spec_assoc<K, V>(entries: Seq<(K, V)>, k: K) -> Option<V>
    decreases entries.len(),
{
    if entries.len() == 0 {
        None
    } else if entries.last().0 == k {
        Some(entries.last().1)
    } else {
        spec_assoc(entries.drop_last(), k)
    }
}

fn label_of(labels: &Vec<(SeqNum, u64)>, k: SeqNum) -> (r: Option<u64>)
    ensures
        r == spec_assoc(labels@, k),
{
    let mut i = labels.len();
    assert(labels@.take(i as int) =~= labels@);
    while i > 0
        invariant
            i <= labels@.len(),
            spec_assoc(labels@, k) == spec_assoc(labels@.take(i as int), k),
        decreases i,
    {
        assert(labels@.take(i as int).drop_last() =~= labels@.take(i - 1));
        if labels[i - 1].0 == k {
            return Some(labels[i - 1].1);
        }
        i = i - 1;
    }
    None
}

fn index_of_label(label_idxs: &Vec<(u64, usize)>, k: u64) -> (r: Option<usize>)
    ensures
        r == spec_assoc(label_idxs@, k),
{
    let mut i = label_idxs.len();
    assert(label_idxs@.take(i as int) =~= label_idxs@);
    while i > 0
        invariant
            i <= label_idxs@.len(),
            spec_assoc(label_idxs@, k) == spec_assoc(label_idxs@.take(i as int), k),
        decreases i,
    {
        assert(label_idxs@.take(i as int).drop_last() =~= label_idxs@.take(i - 1));
        if label_idxs[i - 1].0 == k {
            return Some(label_idxs[i - 1].1);
        }
        i = i - 1;
    }
    None
}

/// Whether ops have the given parts, op by op.
pub open spec fn same_ops_parts(a: Seq<PcodeOp>, b: Seq<OpParts>) -> bool {
    a.len() == b.len() && forall|i: int| 0 <= i < a.len() ==> #[trigger] same_parts(a[i], b[i])
}

/// The ops with their trailing loads into the unique space dropped; `None` where a trailing
/// load has no output.
pub open spec fn spec_trim_loads(ops: Seq<OpParts>) -> Option<Seq<OpParts>>
    decreases ops.len(),
{
    if ops.len() == 0 {
        Some(ops)
    } else if ops.last().1 == OpCode::Load {
        match ops.last().3 {
            Some(o) => if o.space == AddressSpace::Unique {
                spec_trim_loads(ops.drop_last())
            } else {
                Some(ops)
            },
            None => None,
        }
    } else {
        Some(ops)
    }
}

/// The labels among the ops from position `i` on, after `acc`: each with the sequence
/// number of the op after it (the one after the last op's where it comes last) and its
/// number. `None` where a label has no input or the last op's number is `i32::MAX`.
pub open spec fn spec_labels(ops: Seq<OpParts>, i: int, acc: Seq<(SeqNum, u64)>) -> Option<Seq<(SeqNum, u64)>>
    decreases ops.len() - i,
{
    if i < 0 || i >= ops.len() {
        Some(acc)
    } else if ops[i].1 == OpCode::Label {
        if i + 1 >= ops.len() && ops.last().0.uniq == i32::MAX {
            None
        } else if ops[i].2.len() == 0 {
            None
        } else {
            let seq = if i + 1 < ops.len() { ops[i + 1].0 } else { spec_next(ops.last().0) };
            spec_labels(ops, i + 1, acc.push((seq, ops[i].2[0].offset)))
        }
    } else {
        spec_labels(ops, i + 1, acc)
    }
}

/// The ops other than labels, in order.
pub open spec fn spec_drop_labels(ops: Seq<OpParts>) -> Seq<OpParts>
    decreases ops.len(),
{
    if ops.len() == 0 {
        ops
    } else {
        let rest = spec_drop_labels(ops.drop_last());
        if ops.last().1 == OpCode::Label { rest } else { rest.push(ops.last()) }
    }
}

/// For the ops from position `i` on that a label names (by the sequence number it gives,
/// see `spec_labels`), the label's number and the op's position, after `acc`.
pub open spec fn spec_label_idxs(ops: Seq<OpParts>, labels: Seq<(SeqNum, u64)>, i: int, acc: Seq<(u64, usize)>) -> Seq<(u64, usize)>
    decreases ops.len() - i,
{
    if i < 0 || i >= ops.len() {
        acc
    } else {
        match spec_assoc(labels, ops[i].0) {
            Some(l) => spec_label_idxs(ops, labels, i + 1, acc.push((l, i as usize))),
            None => spec_label_idxs(ops, labels, i + 1, acc),
        }
    }
}

/// Op `p` at position `i` of `n` made final: a branch to a constant label number jumps by
/// the difference between the label's position (`n` where no op has it) and its own, kept
/// to 32 bits; the op is numbered `i`.
pub open spec fn spec_final_op(p: OpParts, i: int, lidx: Seq<(u64, usize)>, n: int) -> OpParts {
    let ins = if (p.1 == OpCode::Branch || p.1 == OpCode::CBranch) && p.2.len() > 0 && p.2[0].space == AddressSpace::Const {
        let l: usize = match spec_assoc(lidx, p.2[0].offset) {
            Some(x) => x,
            None => n as usize,
        };
        let rel = vstd::wrapping::i64_specs::wrapping_sub(l as i64, i as i64);
        p.2.update(0, Varnode { offset: (rel as u32) as u64, ..p.2[0] })
    } else {
        p.2
    };
    (SeqNum { pc: p.0.pc, uniq: i as i32 }, p.1, ins, p.3)
}

/// The ops made final (see `spec_final_op`); `None` where there are more than numbers up to
/// `i32::MAX` can count.
pub open spec fn spec_finalize(ops: Seq<OpParts>, lidx: Seq<(u64, usize)>) -> Option<Seq<OpParts>> {
    if ops.len() > i32::MAX + 1 {
        None
    } else {
        Some(Seq::new(ops.len(), |i: int| spec_final_op(ops[i], i, lidx, ops.len() as int)))
    }
}

/// The p-code of a resolved instruction at `pc` of `bit_len` bits: the ops that building it
/// gives (see `spec_build_sym`), put in its run order, without trailing loads into the
/// unique space (see `spec_trim_loads`) and without labels, branches to labels turned into
/// relative op counts and the ops numbered from 0 (see `spec_finalize`). `None` where the
/// templates cannot be built, the run order is not a permutation of the ops, or a step
/// above fails.
#[verifier::opaque]
pub open spec fn spec_pcode_of<'a>(m: MatchedSymbol<'a>, pc: Address, bit_len: usize, lang: SleighLanguage, fx: (String, String)) -> Option<Seq<OpParts>> {
    match spec_build_sym(m, 0, Seq::empty(), pc, bit_len, lang, fx) {
        None => None,
        Some((added, order, _, _, s, n)) => if s + n > order.len() {
            None
        } else {
            let sel = order.subrange(s as int, s + n);
            if !spec_is_permutation(sel, added.len()) {
                None
            } else {
                let sorted = Seq::new(added.len(), |i: int| added[sel[i] as int]);
                match spec_trim_loads(sorted) {
                    None => None,
                    Some(ops) => match spec_labels(ops, 0, Seq::empty()) {
                        None => None,
                        Some(labels) => {
                            let kept = spec_drop_labels(ops);
                            spec_finalize(kept, spec_label_idxs(kept, labels, 0, Seq::empty()))
                        },
                    },
                }
            }
        },
    }
}

fn trim_loads(ops: &mut Vec<PcodeOp>, Ghost(ps): Ghost<Seq<OpParts>>) -> (r: bool)
    requires
        same_ops_parts(old(ops)@, ps),
    ensures
        match spec_trim_loads(ps) {
            Some(t) => r && same_ops_parts(final(ops)@, t),
            None => !r,
        },
{
    let ghost mut cur = ps;
    loop
        invariant_except_break
            same_ops_parts(ops@, cur),
            spec_trim_loads(ps) == spec_trim_loads(cur),
        ensures
            same_ops_parts(ops@, cur),
            spec_trim_loads(ps) == Some(cur),
        decreases ops@.len(),
    {
        if ops.len() == 0 {
            break;
        }
        let n = ops.len();
        assert(same_parts(ops@[n - 1], cur.last()));
        let last = &ops[n - 1];
        if last.opcode == OpCode::Load {
            match &last.output {
                Some(o) => {
                    if o.space == AddressSpace::Unique {
                        ops.pop();
                        proof {
                            cur = cur.drop_last();
                            assert forall|i: int| 0 <= i < ops@.len() implies #[trigger] same_parts(ops@[i], cur[i]) by {
                                assert(same_parts(old(ops)@[i], ps[i]) || true);
                            }
                        }
                    } else {
                        break;
                    }
                },
                None => return false,
            }
        } else {
            break;
        }
    }
    true
}

fn collect_labels(ops: &Vec<PcodeOp>, Ghost(ps): Ghost<Seq<OpParts>>) -> (r: Option<Vec<(SeqNum, u64)>>)
    requires
        same_ops_parts(ops@, ps),
    ensures
        match spec_labels(ps, 0, Seq::empty()) {
            Some(l) => r is Some && r.unwrap()@ == l,
            None => r is None,
        },
{
    let mut labels: Vec<(SeqNum, u64)> = Vec::new();
    let mut i: usize = 0;
    while i < ops.len()
        invariant
            i <= ops@.len(),
            same_ops_parts(ops@, ps),
            spec_labels(ps, 0, Seq::empty()) == spec_labels(ps, i as int, labels@),
        decreases ops@.len() - i,
    {
        assert(same_parts(ops@[i as int], ps[i as int]));
        if ops[i].opcode == OpCode::Label {
            let seq = if i + 1 < ops.len() {
                assert(same_parts(ops@[i + 1], ps[i + 1]));
                ops[i + 1].seq
            } else {
                assert(same_parts(ops@[ops@.len() - 1], ps.last()));
                let last_seq = ops[ops.len() - 1].seq;
                if last_seq.uniq == i32::MAX {
                    return None;
                }
                last_seq.next()
            };
            if ops[i].inputs.len() == 0 {
                return None;
            }
            assert(same_varnode(ops@[i as int].inputs@[0], ps[i as int].2[0]));
            labels.push((seq, ops[i].inputs[0].offset));
        }
        i = i + 1;
    }
    Some(labels)
}

fn drop_labels(ops: Vec<PcodeOp>, Ghost(ps): Ghost<Seq<OpParts>>) -> (r: Vec<PcodeOp>)
    requires
        same_ops_parts(ops@, ps),
    ensures
        same_ops_parts(r@, spec_drop_labels(ps)),
{
    let n = ops.len();
    let mut ops = ops;
    let mut rev: Vec<PcodeOp> = Vec::new();
    while ops.len() > 0
        invariant
            ops@.len() + rev@.len() == n,
            n == ps.len(),
            forall|j: int| 0 <= j < ops@.len() ==> #[trigger] same_parts(ops@[j], ps[j]),
            forall|j: int| 0 <= j < rev@.len() ==> #[trigger] same_parts(rev@[j], ps[n - 1 - j]),
        decreases ops@.len(),
    {
        let ghost k = ops@.len() - 1;
        assert(same_parts(ops@[k], ps[k]));
        let op = ops.pop().unwrap();
        rev.push(op);
    }
    let mut kept: Vec<PcodeOp> = Vec::new();
    assert(ps.take(0) =~= Seq::<OpParts>::empty());
    while rev.len() > 0
        invariant
            rev@.len() <= n,
            n == ps.len(),
            forall|j: int| 0 <= j < rev@.len() ==> #[trigger] same_parts(rev@[j], ps[n - 1 - j]),
            same_ops_parts(kept@, spec_drop_labels(ps.take(n - rev@.len()))),
        decreases rev@.len(),
    {
        let ghost t = n - rev@.len();
        let ghost jj = rev@.len() - 1;
        assert(same_parts(rev@[jj], ps[n - 1 - jj]));
        assert(n - 1 - jj == t);
        let op = rev.pop().unwrap();
        assert(ps.take(t + 1).drop_last() =~= ps.take(t));
        assert(ps.take(t + 1).last() == ps[t]);
        if op.opcode != OpCode::Label {
            kept.push(op);
        }
    }
    assert(ps.take(n as int) =~= ps);
    kept
}

fn label_positions(kept: &Vec<PcodeOp>, labels: &Vec<(SeqNum, u64)>, Ghost(ps): Ghost<Seq<OpParts>>) -> (r: Vec<(u64, usize)>)
    requires
        same_ops_parts(kept@, ps),
    ensures
        r@ == spec_label_idxs(ps, labels@, 0, Seq::empty()),
{
    let mut label_idxs: Vec<(u64, usize)> = Vec::new();
    let mut i: usize = 0;
    while i < kept.len()
        invariant
            i <= kept@.len(),
            same_ops_parts(kept@, ps),
            spec_label_idxs(ps, labels@, 0, Seq::empty()) == spec_label_idxs(ps, labels@, i as int, label_idxs@),
        decreases kept@.len() - i,
    {
        assert(same_parts(kept@[i as int], ps[i as int]));
        if let Some(lbl) = label_of(labels, kept[i].seq) {
            label_idxs.push((lbl, i));
        }
        i = i + 1;
    }
    label_idxs
}

fn finalize(kept: Vec<PcodeOp>, label_idxs: &Vec<(u64, usize)>, Ghost(ps): Ghost<Seq<OpParts>>) -> (r: Option<Vec<PcodeOp>>)
    requires
        same_ops_parts(kept@, ps),
    ensures
        match spec_finalize(ps, label_idxs@) {
            Some(f) => r is Some && same_ops_parts(r.unwrap()@, f),
            None => r is None,
        },
{
    let n = kept.len();
    let mut kept = kept;
    let mut rev: Vec<PcodeOp> = Vec::new();
    while kept.len() > 0
        invariant
            kept@.len() + rev@.len() == n,
            n == ps.len(),
            forall|j: int| 0 <= j < kept@.len() ==> #[trigger] same_parts(kept@[j], ps[j]),
            forall|j: int| 0 <= j < rev@.len() ==> #[trigger] same_parts(rev@[j], ps[n - 1 - j]),
        decreases kept@.len(),
    {
        let ghost k = kept@.len() - 1;
        assert(same_parts(kept@[k], ps[k]));
        let op = kept.pop().unwrap();
        rev.push(op);
    }
    let mut out: Vec<PcodeOp> = Vec::new();
    let mut i: usize = 0;
    while rev.len() > 0
        invariant
            rev@.len() + out@.len() == n,
            i == out@.len(),
            i <= i32::MAX + 1,
            n == ps.len(),
            forall|j: int| 0 <= j < rev@.len() ==> #[trigger] same_parts(rev@[j], ps[n - 1 - j]),
            forall|j: int| 0 <= j < out@.len() ==> #[trigger] same_parts(out@[j], spec_final_op(ps[j], j, label_idxs@, n as int)),
        decreases rev@.len(),
    {
        let ghost jj = rev@.len() - 1;
        assert(same_parts(rev@[jj], ps[n - 1 - jj]));
        assert(n - 1 - jj == i);
        let mut op = rev.pop().unwrap();
        let ghost p = ps[i as int];
        let ghost q = spec_final_op(p, i as int, label_idxs@, n as int);
        assert(same_parts(op, p));
        assert(op.inputs@.len() == p.2.len());
        assert(op.inputs@.len() > 0 ==> same_varnode(op.inputs@[0], p.2[0]));
        if (op.opcode == OpCode::Branch || op.opcode == OpCode::CBranch) && op.inputs.len() > 0 && op.inputs[0].space == AddressSpace::Const {
            assert(same_varnode(op.inputs@[0], p.2[0]));
            let lbl_idx = match index_of_label(label_idxs, op.inputs[0].offset) {
                Some(x) => x,
                None => n,
            };
            let a: i64 = #[verifier::truncate] (lbl_idx as i64);
            let b: i64 = #[verifier::truncate] (i as i64);
            let rel: i64 = a.wrapping_sub(b);
            let off: u32 = #[verifier::truncate] (rel as u32);
            let mut v = op.inputs[0].clone();
            v.offset = off as u64;
            let ghost before = op.inputs@;
            op.inputs.set(0, v);
            proof {
                assert forall|j: int| 0 <= j < op.inputs@.len() implies #[trigger] same_varnode(op.inputs@[j], q.2[j]) by {
                    if j != 0 {
                        assert(same_varnode(before[j], p.2[j]));
                    }
                }
                assert(same_varnodes(op.inputs@, q.2));
            }
        } else {
            assert(q.2 == p.2);
            assert(same_varnodes(op.inputs@, q.2));
        }
        if i > i32::MAX as usize {
            return None;
        }
        op.seq.uniq = i as i32;
        assert(same_parts(op, q));
        out.push(op);
        i = i + 1;
    }
    proof {
        let f = spec_finalize(ps, label_idxs@).unwrap();
        assert forall|j: int| 0 <= j < out@.len() implies #[trigger] same_parts(out@[j], f[j]) by {
            assert(same_parts(out@[j], spec_final_op(ps[j], j, label_idxs@, n as int)));
        }
    }
    Some(out)
}

/// Builds the p-code of a resolved instruction at `pc` of `bit_len` bits (see
/// `spec_pcode_of`), the literals relative to the instruction named `fixup_start` and
/// `fixup_end`. `None` where the templates cannot be built or a step fails.
pub fn build_sym(matched_sym: &MatchedSymbol, pc: &Address, bit_len: usize, lang: &SleighLanguage) -> (r: Option<Vec<PcodeOp>>)
    ensures
        exists|fx: (String, String)| fx.0@ == "fixup_start"@ && fx.1@ == "fixup_end"@ && match #[trigger] spec_pcode_of(*matched_sym, *pc, bit_len, *lang, fx) {
            Some(ps) => r is Some && same_ops_parts(r.unwrap()@, ps),
            None => r is None,
        },
        r is Some ==> ({
            let ops = r.unwrap()@;
            &&& forall|i: int| 0 <= i < ops.len() ==> (#[trigger] ops[i]).seq.uniq == i && ops[i].opcode != OpCode::Label
        }),
{
    reveal(spec_pcode_of);
    let ctx = BuildContext { pc, bit_len, lang, fixup_names: (string_of("fixup_start"), string_of("fixup_end")) };
    let ghost fx = ctx.fixup_names;
    let mut ops: Vec<PcodeOp> = Vec::new();
    let mut objs: Vec<PcodeObject> = Vec::new();
    let mut order: Vec<usize> = Vec::new();
    let res = _build_sym(matched_sym, &mut ops, &mut objs, &mut order, &ctx);
    let ghost sb = spec_build_sym(*matched_sym, 0, Seq::empty(), *pc, bit_len, *lang, fx);
    let ghost result = spec_pcode_of(*matched_sym, *pc, bit_len, *lang, fx);
    if res.is_none() {
        assert(result is None);
        return None;
    }
    let (ops_start, num_ops) = match res {
        Some((_, s, n)) => (s, n),
        None => (0, 0),
    };
    let ghost (added, gorder, _, _, gs, gn) = sb.unwrap();
    let olen = order.len();
    assert(ops_start + num_ops <= olen);
    let stop = ops_start + num_ops;
    let mut sel: Vec<usize> = Vec::new();
    let mut k: usize = ops_start;
    while k < stop
        invariant
            stop <= order@.len(),
            ops_start <= k <= stop,
            sel@ == order@.subrange(ops_start as int, k as int),
        decreases stop - k,
    {
        sel.push(order[k]);
        assert(sel@ =~= order@.subrange(ops_start as int, k + 1));
        k = k + 1;
    }
    if !check_permutation(&sel, ops.len()) {
        assert(result is None);
        return None;
    }
    let ghost gsel = sel@;
    let ghost sorted = Seq::new(added.len(), |i: int| added[gsel[i] as int]);
    let ghost ops0 = ops@;
    sort_by_indices(&mut ops, sel);
    proof {
        assert(ops0.subrange(0, 0) =~= Seq::<PcodeOp>::empty());
        assert forall|i: int| 0 <= i < ops@.len() implies #[trigger] same_parts(ops@[i], sorted[i]) by {
            assert(same_parts(ops0[0 + gsel[i] as int], added[gsel[i] as int]));
        }
    }
    if !trim_loads(&mut ops, Ghost(sorted)) {
        return None;
    }
    let ghost trimmed = spec_trim_loads(sorted).unwrap();
    let labels = match collect_labels(&ops, Ghost(trimmed)) {
        Some(l) => l,
        None => return None,
    };
    let ghost kept_parts = spec_drop_labels(trimmed);
    let kept = drop_labels(ops, Ghost(trimmed));
    let label_idxs = label_positions(&kept, &labels, Ghost(kept_parts));
    let out = finalize(kept, &label_idxs, Ghost(kept_parts));
    proof {
        if out is Some {
            let o = out.unwrap()@;
            let f = result.unwrap();
            assert forall|i: int| 0 <= i < o.len() implies (#[trigger] o[i]).seq.uniq == i && o[i].opcode != OpCode::Label by {
                assert(same_parts(o[i], f[i]));
                lemma_drop_labels_no_label(trimmed, i);
            }
        }
    }
    out
}

proof fn lemma_drop_labels_no_label(ops: Seq<OpParts>, i: int)
    requires
        0 <= i < spec_drop_labels(ops).len(),
    ensures
        spec_drop_labels(ops)[i].1 != OpCode::Label,
    decreases ops.len(),
{
    if ops.len() > 0 {
        let rest = spec_drop_labels(ops.drop_last());
        if i < rest.len() {
            lemma_drop_labels_no_label(ops.drop_last(), i);
        }
    }
}

/// A negative literal's magnitude for its size: `((val ^ mask) as u64) + 1` where the sign
/// bit of its size is set, else the value itself and `false`. `None` where the addition
/// overflows.
pub open spec fn spec_neg_form(val: i64, sz: usize) -> Option<(u64, bool)> {
    let (mask, top): (i64, i64) = if sz == 1 {
        (0xff, 7)
    } else if sz == 2 {
        (0xffff, 15)
    } else if sz == 4 {
        (0xffffffff, 31)
    } else {
        (-1i64, 63i64)
    };
    if (sz == 1 || sz == 2 || sz == 4 || sz == 8) && (val >> (top as u64)) != 0 {
        let m = (val ^ mask) as u64;
        if m < u64::MAX {
            Some(((m + 1) as u64, true))
        } else {
            None
        }
    } else {
        Some((val as u64, false))
    }
}

/// Whether op `ops[j]` shows that a negative literal is subtracted, scanning from `j`:
/// `Some(true)` at the first subtraction of the literal's magnitude, or signed-borrow check
/// against its sign-extended value; `None` where an op lacks a second input or a shift
/// would reach 64 bits.
pub open spec fn spec_lit_scan(ops: Seq<PcodeOp>, j: int, neg_v: u64, is_neg: bool, sext_v: u64) -> Option<bool>
    decreases ops.len() - j,
{
    if j < 0 || j >= ops.len() {
        Some(false)
    } else {
        let op = ops[j];
        if op.opcode == OpCode::IntSub {
            if op.inputs@.len() < 2 {
                None
            } else if op.inputs@[1].space == AddressSpace::Const && op.inputs@[1].offset > 0 && op.inputs@[1].offset == neg_v && is_neg {
                Some(true)
            } else {
                spec_lit_scan(ops, j + 1, neg_v, is_neg, sext_v)
            }
        } else if op.opcode == OpCode::IntSBorrow {
            if op.inputs@.len() < 2 {
                None
            } else if op.inputs@[1].space == AddressSpace::Const && op.inputs@[1].offset > 0 && is_neg {
                if op.inputs@[1].size < 1 || op.inputs@[1].size > 8 {
                    None
                } else if op.inputs@[1].offset == (sext_v >> ((64 - op.inputs@[1].size * 8) as u64)) {
                    Some(true)
                } else {
                    spec_lit_scan(ops, j + 1, neg_v, is_neg, sext_v)
                }
            } else {
                spec_lit_scan(ops, j + 1, neg_v, is_neg, sext_v)
            }
        } else {
            spec_lit_scan(ops, j + 1, neg_v, is_neg, sext_v)
        }
    }
}

/// The text of a literal operand of `sz` bytes: `0x<hex>`, or `-0x<hex>` of its magnitude
/// where it is an 8-byte negative value or the instruction's p-code subtracts it. `None`
/// where the size is not 1 to 8 bytes or the scan of the ops fails.
pub open spec fn spec_literal_text(val: i64, sz: usize, ops: Seq<PcodeOp>) -> Option<Seq<char>> {
    if sz < 1 || sz > 8 {
        None
    } else {
        match spec_neg_form(val, sz) {
            None => None,
            Some((neg_v, is_neg)) => {
                let shift = (64 - sz * 8) as u64;
                let sext_v = ((((val as u64) << shift) as i64) >> shift) as u64;
                match spec_lit_scan(ops, 0, neg_v, is_neg, sext_v) {
                    None => None,
                    Some(found) => if found || (sz == 8 && is_neg) {
                        Some("-"@ + "0x"@ + spec_hex(neg_v as nat))
                    } else {
                        Some("0x"@ + spec_hex(val as u64 as nat))
                    },
                }
            },
        }
    }
}

fn neg_form(val: i64, sz: usize) -> (r: Option<(u64, bool)>)
    ensures
        r == spec_neg_form(val, sz),
{
    let (mask, top): (i64, i64) = if sz == 1 {
        (0xff, 7)
    } else if sz == 2 {
        (0xffff, 15)
    } else if sz == 4 {
        (0xffffffff, 31)
    } else {
        (-1, 63)
    };
    if (sz == 1 || sz == 2 || sz == 4 || sz == 8) && (val >> (top as u64)) != 0 {
        let m = (val ^ mask) as u64;
        if m < u64::MAX {
            Some((m + 1, true))
        } else {
            None
        }
    } else {
        Some((val as u64, false))
    }
}

/// Appends the text of a literal operand (see `spec_literal_text`); `false` where it has
/// none.
pub fn push_literal_text(text: &mut String, val: i64, sz: usize, ops: &[PcodeOp]) -> (r: bool)
    ensures
        match spec_literal_text(val, sz, ops@) {
            Some(t) => r && final(text)@ == old(text)@ + t,
            None => !r && final(text)@ == old(text)@,
        },
{
    if sz < 1 || sz > 8 {
        return false;
    }
    let (neg_v, is_neg) = match neg_form(val, sz) {
        Some(x) => x,
        None => return false,
    };
    let shift: u64 = (64 - sz * 8) as u64;
    let sext_v = ((((val as u64) << shift) as i64) >> shift) as u64;
    let mut found = false;
    let mut j: usize = 0;
    while j < ops.len()
        invariant_except_break
            !found,
            spec_lit_scan(ops@, 0, neg_v, is_neg, sext_v) == spec_lit_scan(ops@, j as int, neg_v, is_neg, sext_v),
        invariant
            j <= ops@.len(),
            1 <= sz <= 8,
            text@ == old(text)@,
            spec_neg_form(val, sz) == Some((neg_v, is_neg)),
            shift == (64 - sz * 8) as u64,
            sext_v == ((((val as u64) << shift) as i64) >> shift) as u64,
        ensures
            found ==> spec_lit_scan(ops@, 0, neg_v, is_neg, sext_v) == Some(true),
            !found ==> spec_lit_scan(ops@, 0, neg_v, is_neg, sext_v) == Some(false),
        decreases ops@.len() - j,
    {
        let op = &ops[j];
        assert(*op == ops@[j as int]);
        if op.opcode == OpCode::IntSub {
            if op.inputs.len() < 2 {
                assert(spec_lit_scan(ops@, j as int, neg_v, is_neg, sext_v) is None);
                return false;
            }
            if op.inputs[1].space == AddressSpace::Const && op.inputs[1].offset > 0 && op.inputs[1].offset == neg_v && is_neg {
                assert(spec_lit_scan(ops@, j as int, neg_v, is_neg, sext_v) == Some(true));
                found = true;
                break;
            }
        } else if op.opcode == OpCode::IntSBorrow {
            if op.inputs.len() < 2 {
                assert(spec_lit_scan(ops@, j as int, neg_v, is_neg, sext_v) is None);
                return false;
            }
            if op.inputs[1].space == AddressSpace::Const && op.inputs[1].offset > 0 && is_neg {
                let isz = op.inputs[1].size;
                if isz < 1 || isz > 8 {
                    assert(spec_lit_scan(ops@, j as int, neg_v, is_neg, sext_v) is None);
                    return false;
                }
                if op.inputs[1].offset == (sext_v >> (64 - isz * 8)) {
                    assert(spec_lit_scan(ops@, j as int, neg_v, is_neg, sext_v) == Some(true));
                    found = true;
                    break;
                }
            }
        }
        j = j + 1;
    }
    if found || (sz == 8 && is_neg) {
        push_str(text, "-");
        push_str(text, "0x");
        push_hex(text, neg_v);
        assert(old(text)@ + "-"@ + "0x"@ + spec_hex(neg_v as nat) =~= old(text)@ + ("-"@ + "0x"@ + spec_hex(neg_v as nat)));
    } else {
        push_str(text, "0x");
        push_hex(text, val as u64);
        assert(old(text)@ + "0x"@ + spec_hex(val as u64 as nat) =~= old(text)@ + ("0x"@ + spec_hex(val as u64 as nat)));
    }
    true
}

/// The assembly text of a resolved symbol: a constructor's print commands in order (see
/// `spec_cmds_text`; none where it has no print commands), a varnode symbol's name (nothing
/// for another symbol), a literal's text (see `spec_literal_text`), or a name. `None` where
/// a print command names a missing operand or a literal has no text.
pub open spec fn spec_sym_text<'a>(m: MatchedSymbol<'a>, ops: Seq<PcodeOp>) -> Option<Seq<char>>
    decreases m, 0int,
{
    match m {
        MatchedSymbol::Constructor((ct, operands)) => {
            proof {
                let pair = (ct, operands);
                assert(decreases_to!(m => pair));
                assert(decreases_to!(pair => operands));
                assert(decreases_to!(operands => operands@));
            }
            match ct.print_commands {
                Some(cmds) => spec_cmds_text(cmds@, 0, operands@, ops, Seq::empty()),
                None => Some(Seq::empty()),
            }
        },
        MatchedSymbol::Symbol(sym, _) => match sym.body {
            SymbolBody::Varnode(vnode) => Some(vnode.name@),
            _ => Some(Seq::empty()),
        },
        MatchedSymbol::Literal((v, sz)) => spec_literal_text(v, sz, ops),
        MatchedSymbol::String(s) => Some(s@),
    }
}

/// `acc` followed by the text of the print commands from position `k` on: an operand's
/// text (see `spec_sym_text`) or a piece of text as it is.
pub open spec fn spec_cmds_text<'a>(cmds: Seq<PrintCommand>, k: int, operands: Seq<(MatchedSymbol<'a>, Option<FixupType>)>, ops: Seq<PcodeOp>, acc: Seq<char>) -> Option<Seq<char>>
    decreases operands, cmds.len() - k,
{
    if k < 0 || k >= cmds.len() {
        Some(acc)
    } else {
        match cmds[k] {
            PrintCommand::Op(i) => if (i as int) < operands.len() {
                proof {
                    assert(decreases_to!(operands => operands[i as int]));
                    assert(decreases_to!(operands[i as int] => operands[i as int].0));
                }
                match spec_sym_text(operands[i as int].0, ops) {
                    Some(t) => spec_cmds_text(cmds, k + 1, operands, ops, acc + t),
                    None => None,
                }
            } else {
                None
            },
            PrintCommand::Piece(p) => spec_cmds_text(cmds, k + 1, operands, ops, acc + p@),
        }
    }
}

/// Whether two op lists have, op by op, the same operations and inputs at the same
/// locations (names aside): all that the assembly text reads of them.
spec fn same_op_inputs(a: Seq<PcodeOp>, b: Seq<PcodeOp>) -> bool {
    &&& a.len() == b.len()
    &&& forall|k: int| 0 <= k < a.len() ==> (#[trigger] a[k]).opcode == b[k].opcode
    &&& forall|k: int| 0 <= k < a.len() ==> (#[trigger] a[k]).inputs@.len() == b[k].inputs@.len()
    &&& forall|k: int, q: int| 0 <= k < a.len() && 0 <= q < a[k].inputs@.len()
        ==> same_location(#[trigger] a[k].inputs@[q], b[k].inputs@[q])
}

proof fn lemma_parts_same_op_inputs(a: Seq<PcodeOp>, b: Seq<PcodeOp>, ps: Seq<OpParts>)
    requires
        same_ops_parts(a, ps),
        same_ops_parts(b, ps),
    ensures
        same_op_inputs(a, b),
{
    assert forall|k: int, q: int| 0 <= k < a.len() && 0 <= q < a[k].inputs@.len()
        implies same_location(#[trigger] a[k].inputs@[q], b[k].inputs@[q]) by {
        assert(same_parts(a[k], ps[k]));
        assert(same_parts(b[k], ps[k]));
        assert(same_varnode(a[k].inputs@[q], ps[k].2[q]));
        assert(same_varnode(b[k].inputs@[q], ps[k].2[q]));
    }
    assert forall|k: int| 0 <= k < a.len() implies (#[trigger] a[k]).opcode == b[k].opcode && a[k].inputs@.len() == b[k].inputs@.len() by {
        assert(same_parts(a[k], ps[k]));
        assert(same_parts(b[k], ps[k]));
    }
}

proof fn lemma_lit_scan_same(a: Seq<PcodeOp>, b: Seq<PcodeOp>, j: int, neg_v: u64, is_neg: bool, sext_v: u64)
    requires
        same_op_inputs(a, b),
    ensures
        spec_lit_scan(a, j, neg_v, is_neg, sext_v) == spec_lit_scan(b, j, neg_v, is_neg, sext_v),
    decreases a.len() - j,
{
    if 0 <= j < a.len() {
        assert(a[j].opcode == b[j].opcode);
        assert(a[j].inputs@.len() == b[j].inputs@.len());
        if a[j].inputs@.len() >= 2 {
            assert(same_location(a[j].inputs@[1], b[j].inputs@[1]));
        }
        lemma_lit_scan_same(a, b, j + 1, neg_v, is_neg, sext_v);
    }
}

/// The assembly text reads of the ops only their operations and input locations.
proof fn lemma_sym_text_same<'a>(m: MatchedSymbol<'a>, a: Seq<PcodeOp>, b: Seq<PcodeOp>)
    requires
        same_op_inputs(a, b),
    ensures
        spec_sym_text(m, a) == spec_sym_text(m, b),
    decreases m, 0int,
{
    match m {
        MatchedSymbol::Constructor((ct, operands)) => {
            let pair = (ct, operands);
            assert(decreases_to!(m => pair));
            assert(decreases_to!(pair => operands));
            assert(decreases_to!(operands => operands@));
            match ct.print_commands {
                Some(cmds) => lemma_cmds_text_same(cmds@, 0, operands@, a, b, Seq::empty()),
                None => {},
            }
        },
        MatchedSymbol::Literal((v, sz)) => {
            if 1 <= sz <= 8 {
                match spec_neg_form(v, sz) {
                    Some((neg_v, is_neg)) => {
                        let shift = (64 - sz * 8) as u64;
                        let sext_v = ((((v as u64) << shift) as i64) >> shift) as u64;
                        lemma_lit_scan_same(a, b, 0, neg_v, is_neg, sext_v);
                    },
                    None => {},
                }
            }
        },
        _ => {},
    }
}

proof fn lemma_cmds_text_same<'a>(cmds: Seq<PrintCommand>, k: int, operands: Seq<(MatchedSymbol<'a>, Option<FixupType>)>, a: Seq<PcodeOp>, b: Seq<PcodeOp>, acc: Seq<char>)
    requires
        same_op_inputs(a, b),
    ensures
        spec_cmds_text(cmds, k, operands, a, acc) == spec_cmds_text(cmds, k, operands, b, acc),
    decreases operands, cmds.len() - k,
{
    if 0 <= k < cmds.len() {
        match cmds[k] {
            PrintCommand::Op(i) => if (i as int) < operands.len() {
                assert(decreases_to!(operands => operands[i as int]));
                assert(decreases_to!(operands[i as int] => operands[i as int].0));
                lemma_sym_text_same(operands[i as int].0, a, b);
                match spec_sym_text(operands[i as int].0, a) {
                    Some(t) => lemma_cmds_text_same(cmds, k + 1, operands, a, b, acc + t),
                    None => {},
                }
            },
            PrintCommand::Piece(p) => lemma_cmds_text_same(cmds, k + 1, operands, a, b, acc + p@),
        }
    }
}

/// Whether no ops with the parts `ps` have an assembly text over `m`.
pub open spec fn spec_no_text<'a>(m: MatchedSymbol<'a>, ps: Seq<OpParts>) -> bool {
    forall|ops: Seq<PcodeOp>| same_ops_parts(ops, ps) ==> #[trigger] spec_sym_text(m, ops) is None
}

/// Where the ops built from `ps` have no assembly text over `m`, no ops with those parts do.
pub(crate) proof fn lemma_no_text<'a>(m: MatchedSymbol<'a>, ops: Seq<PcodeOp>, ps: Seq<OpParts>)
    requires
        same_ops_parts(ops, ps),
        spec_sym_text(m, ops) is None,
    ensures
        spec_no_text(m, ps),
{
    assert forall|o: Seq<PcodeOp>| same_ops_parts(o, ps) implies #[trigger] spec_sym_text(m, o) is None by {
        lemma_parts_same_op_inputs(o, ops, ps);
        lemma_sym_text_same(m, o, ops);
    }
}

/// Appends the assembly text of a resolved symbol (see `spec_sym_text`). Returns `false`
/// where it has none; the text is only ever appended to.
pub fn _build_text(matched_sym: &MatchedSymbol, text: &mut String, ops: &[PcodeOp]) -> (r: bool)
    ensures
        final(text)@.len() >= old(text)@.len(),
        final(text)@.subrange(0, old(text)@.len() as int) == old(text)@,
        match spec_sym_text(*matched_sym, ops@) {
            Some(t) => r && final(text)@ == old(text)@ + t,
            None => !r,
        },
    decreases matched_sym, 0int,
{
    assert(text@.subrange(0, text@.len() as int) =~= text@);
    match matched_sym {
        MatchedSymbol::Constructor((ct, operands)) => {
            let ghost pair = (*ct, *operands);
            proof {
                assert(decreases_to!(*matched_sym => pair));
                assert(decreases_to!(pair => *operands));
                assert(decreases_to!(*operands => operands@));
            }
            if let Some(cmds) = &ct.print_commands {
                let ghost n0 = text@.len();
                let mut k: usize = 0;
                assert(text@.subrange(n0 as int, text@.len() as int) =~= Seq::<char>::empty());
                while k < cmds.len()
                    invariant
                        decreases_to!(*matched_sym => operands@),
                        *matched_sym is Constructor,
                        n0 == old(text)@.len(),
                        k <= cmds@.len(),
                        spec_sym_text(*matched_sym, ops@) == spec_cmds_text(cmds@, 0, operands@, ops@, Seq::empty()),
                        text@.len() >= old(text)@.len(),
                        text@.subrange(0, old(text)@.len() as int) == old(text)@,
                        spec_cmds_text(cmds@, 0, operands@, ops@, Seq::empty())
                            == spec_cmds_text(cmds@, k as int, operands@, ops@, text@.subrange(n0 as int, text@.len() as int)),
                    decreases cmds@.len() - k,
                {
                    let ghost before = text@;
                    match &cmds[k] {
                        PrintCommand::Op(op_idx) => {
                            if *op_idx as usize >= operands.len() {
                                return false;
                            }
                            proof {
                                assert(decreases_to!(operands@ => operands@[*op_idx as int]));
                                assert(decreases_to!(operands@[*op_idx as int] => operands@[*op_idx as int].0));
                            }
                            let ok = _build_text(&operands[*op_idx as usize].0, text, ops);
                            assert(text@.subrange(0, old(text)@.len() as int) =~= before.subrange(0, old(text)@.len() as int));
                            if !ok {
                                return false;
                            }
                            proof {
                                let t = spec_sym_text(operands@[*op_idx as int].0, ops@).unwrap();
                                assert(text@.subrange(n0 as int, text@.len() as int) =~= before.subrange(n0 as int, before.len() as int) + t);
                            }
                        },
                        PrintCommand::Piece(piece) => {
                            push_str(text, piece.as_str());
                            assert(text@.subrange(0, old(text)@.len() as int) =~= before.subrange(0, old(text)@.len() as int));
                            assert(text@.subrange(n0 as int, text@.len() as int) =~= before.subrange(n0 as int, before.len() as int) + piece@);
                        },
                    }
                    k = k + 1;
                }
                assert(text@ =~= old(text)@ + text@.subrange(n0 as int, text@.len() as int));
            } else {
                assert(text@ =~= old(text)@ + Seq::<char>::empty());
            }
            true
        },
        MatchedSymbol::Symbol(sym, _) => {
            if let SymbolBody::Varnode(vnode) = &sym.body {
                push_str(text, vnode.name.as_str());
                assert(text@.subrange(0, old(text)@.len() as int) =~= old(text)@);
            } else {
                assert(text@ =~= old(text)@ + Seq::<char>::empty());
            }
            true
        },
        MatchedSymbol::Literal((val, sz)) => {
            let ok = push_literal_text(text, *val, *sz, ops);
            assert(text@.subrange(0, old(text)@.len() as int) =~= old(text)@);
            ok
        },
        MatchedSymbol::String(s) => {
            push_str(text, s);
            assert(text@.subrange(0, old(text)@.len() as int) =~= old(text)@);
            true
        },
    }
}

/// The assembly text of a resolved instruction (see `spec_sym_text`); `None` where it has
/// none.
pub fn build_text(matched_sym: &MatchedSymbol, ops: &[PcodeOp]) -> (r: Option<String>)
    ensures
        match spec_sym_text(*matched_sym, ops@) {
            Some(t) => r is Some && r.unwrap()@ == t,
            None => r is None,
        },
{
    let mut text = String::new();
    if _build_text(matched_sym, &mut text, ops) {
        assert(Seq::<char>::empty() + text@ =~= text@);
        Some(text)
    } else {
        None
    }
}

} // verus!
