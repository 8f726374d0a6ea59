//! Reading a compiled SLEIGH specification from its tags (see `xml`): the address spaces,
//! the symbol table with its constructors, decision trees and p-code templates.
//!
//! Each element is read from a position in the tag sequence. Where its attributes are
//! read by position, they are the attributes written first, in order. An element that
//! does not have the expected tags or attributes, or an attribute that does not read as
//! the number or boolean it stands for, makes the whole read fail.
use vstd::prelude::*;
use crate::xml::{TagKind, XmlTag, TagV, tags_view, tokenize, spec_lex};
use crate::utils::{spec_hex_text, spec_from_str_radix, spec_signed_dec, try_u64hex, try_u64dec, try_signed_dec};
use crate::text::str_eq;
use crate::sleigh::address::{AddressSpace, spec_space_of_name};
use crate::sla_parser::{
    Space, Scope, SymbolHead, UserOp, PrintCommand, OperandExpr, ContextField, TokenField, Field,
    MaskWord, ConstTemplate, HandleExpr, Symbol, SymbolBody, Expr, ExprOp, ContextOp,
    VarnodeTemplate, OpTemplate, HandleTemplate, ConsTemplate, ConstructorTemplate, Constructor,
    PatternBlock, DecisionPattern, DecisionTree, Subtable, VarnodeSym, Operand, Valuemap, Varlist,
    NameTable, Value, Context, Program,
};

verus! {

// ---------------------------------------------------------------------------------------
// Attributes

/// The value of attribute `k` of a tag, if it has one.
pub open spec fn attr_val(tv: TagV, k: int) -> Option<Seq<char>> {
    if 0 <= k < tv.2.len() {
        Some(tv.2[k].1)
    } else {
        None
    }
}

/// A 64-bit number narrowed to 32 bits where it fits.
pub open spec fn narrow32(v: Option<u64>) -> Option<u32> {
    match v {
        Some(x) => if x <= u32::MAX {
            Some(x as u32)
        } else {
            None
        },
        None => None,
    }
}

/// Attribute `k` read as a hexadecimal number after a two-character prefix.
pub open spec fn a_u64hex(tv: TagV, k: int) -> Option<u64> {
    match attr_val(tv, k) {
        Some(v) => spec_hex_text(v),
        None => None,
    }
}

/// Attribute `k` read as a 32-bit hexadecimal number after a two-character prefix.
pub open spec fn a_u32hex(tv: TagV, k: int) -> Option<u32> {
    narrow32(a_u64hex(tv, k))
}

/// Attribute `k` read as a decimal number.
pub open spec fn a_u64dec(tv: TagV, k: int) -> Option<u64> {
    match attr_val(tv, k) {
        Some(v) => spec_from_str_radix(v, 10),
        None => None,
    }
}

/// Attribute `k` read as a 32-bit decimal number.
pub open spec fn a_u32dec(tv: TagV, k: int) -> Option<u32> {
    narrow32(a_u64dec(tv, k))
}

/// Attribute `k` read as a signed 64-bit decimal number.
pub open spec fn a_i64dec(tv: TagV, k: int) -> Option<i64> {
    match attr_val(tv, k) {
        Some(v) => match spec_signed_dec(v, 0x8000000000000000) {
            Some(x) => Some(x as i64),
            None => None,
        },
        None => None,
    }
}

/// Attribute `k` read as a signed 32-bit decimal number.
pub open spec fn a_i32dec(tv: TagV, k: int) -> Option<i32> {
    match attr_val(tv, k) {
        Some(v) => match spec_signed_dec(v, 0x80000000) {
            Some(x) => Some(x as i32),
            None => None,
        },
        None => None,
    }
}

/// A boolean as written: `true` or `false`.
pub open spec fn spec_bool_text(v: Seq<char>) -> Option<bool> {
    if v == "true"@ {
        Some(true)
    } else if v == "false"@ {
        Some(false)
    } else {
        None
    }
}

/// Attribute `k` read as a boolean.
pub open spec fn a_bool(tv: TagV, k: int) -> Option<bool> {
    match attr_val(tv, k) {
        Some(v) => spec_bool_text(v),
        None => None,
    }
}

/// Whether a tag has the given kind and name.
pub open spec fn tag_is(tv: TagV, kind: TagKind, name: Seq<char>) -> bool {
    tv.0 == kind && tv.1 == name
}

fn is_tag(t: &XmlTag, kind: TagKind, name: &str) -> (r: bool)
    ensures
        r == tag_is(t@, kind, name@),
{
    t.kind == kind && str_eq(t.name.as_str(), name)
}

fn attr_str(t: &XmlTag, k: usize) -> (r: Option<&str>)
    ensures
        match attr_val(t@, k as int) {
            Some(v) => r is Some && r->0@ == v,
            None => r is None,
        },
{
    if k < t.attrs.len() {
        assert(t@.2[k as int] == (t.attrs@[k as int].0@, t.attrs@[k as int].1@));
        Some(t.attrs[k].1.as_str())
    } else {
        None
    }
}

fn attr_string(t: &XmlTag, k: usize) -> (r: Option<String>)
    ensures
        match attr_val(t@, k as int) {
            Some(v) => r is Some && r->0@ == v,
            None => r is None,
        },
{
    match attr_str(t, k) {
        Some(v) => Some(v.to_owned()),
        None => None,
    }
}

fn attr_u64hex(t: &XmlTag, k: usize) -> (r: Option<u64>)
    ensures
        r == a_u64hex(t@, k as int),
{
    match attr_str(t, k) {
        Some(v) => try_u64hex(v),
        None => None,
    }
}

fn attr_u32hex(t: &XmlTag, k: usize) -> (r: Option<u32>)
    ensures
        r == a_u32hex(t@, k as int),
{
    match attr_u64hex(t, k) {
        Some(x) => if x <= 0xffffffff {
            Some(x as u32)
        } else {
            None
        },
        None => None,
    }
}

fn attr_u64dec(t: &XmlTag, k: usize) -> (r: Option<u64>)
    ensures
        r == a_u64dec(t@, k as int),
{
    match attr_str(t, k) {
        Some(v) => try_u64dec(v),
        None => None,
    }
}

fn attr_u32dec(t: &XmlTag, k: usize) -> (r: Option<u32>)
    ensures
        r == a_u32dec(t@, k as int),
{
    match attr_u64dec(t, k) {
        Some(x) => if x <= 0xffffffff {
            Some(x as u32)
        } else {
            None
        },
        None => None,
    }
}

fn attr_i64dec(t: &XmlTag, k: usize) -> (r: Option<i64>)
    ensures
        r == a_i64dec(t@, k as int),
{
    match attr_str(t, k) {
        Some(v) => try_signed_dec(v, 0x8000000000000000),
        None => None,
    }
}

fn attr_i32dec(t: &XmlTag, k: usize) -> (r: Option<i32>)
    ensures
        r == a_i32dec(t@, k as int),
{
    match attr_str(t, k) {
        Some(v) => match try_signed_dec(v, 0x80000000) {
            Some(x) => Some(x as i32),
            None => None,
        },
        None => None,
    }
}

fn bool_text(v: &str) -> (r: Option<bool>)
    ensures
        r == spec_bool_text(v@),
{
    if str_eq(v, "true") {
        Some(true)
    } else if str_eq(v, "false") {
        Some(false)
    } else {
        None
    }
}

fn attr_bool(t: &XmlTag, k: usize) -> (r: Option<bool>)
    ensures
        r == a_bool(t@, k as int),
{
    match attr_str(t, k) {
        Some(v) => bool_text(v),
        None => None,
    }
}

// ---------------------------------------------------------------------------------------
// Elements of one tag

/// Whether a tag is an address space: `<space_other`, `<space_unique` or `<space`, with
/// name, index, big-endianness, delay, size and whether it is physical.
pub open spec fn spec_space_ok(tv: TagV) -> bool {
    &&& tv.0 == TagKind::Empty
    &&& (tv.1 == "space_other"@ || tv.1 == "space_unique"@ || tv.1 == "space"@)
    &&& attr_val(tv, 0) is Some
    &&& a_u32dec(tv, 1) is Some
    &&& a_bool(tv, 2) is Some
    &&& a_u32dec(tv, 3) is Some
    &&& a_bool(tv, 5) is Some
    &&& a_u32dec(tv, 4) is Some
}

/// The address space a tag declares.
pub open spec fn spec_space(tv: TagV, sp: Space) -> bool {
    &&& spec_space_ok(tv)
    &&& attr_val(tv, 0) == Some(sp.name@)
    &&& a_u32dec(tv, 1) == Some(sp.index)
    &&& a_bool(tv, 2) == Some(sp.big_endian)
    &&& a_u32dec(tv, 3) == Some(sp.delay)
    &&& a_u32dec(tv, 4) == Some(sp.size)
    &&& a_bool(tv, 5) == Some(sp.physical)
}

/// Reads an address space from one tag.
pub fn read_space(t: &XmlTag) -> (r: Option<Space>)
    ensures
        r is Some == spec_space_ok(t@),
        r is Some ==> spec_space(t@, r->0),
{
    if t.kind != TagKind::Empty {
        return None;
    }
    if !(str_eq(t.name.as_str(), "space_other") || str_eq(t.name.as_str(), "space_unique") || str_eq(
        t.name.as_str(),
        "space",
    )) {
        return None;
    }
    let name = attr_string(t, 0);
    let index = attr_u32dec(t, 1);
    let big_endian = attr_bool(t, 2);
    let delay = attr_u32dec(t, 3);
    let size = attr_u32dec(t, 4);
    let physical = attr_bool(t, 5);
    match (name, index, big_endian, delay, size, physical) {
        (Some(name), Some(index), Some(big_endian), Some(delay), Some(size), Some(physical)) => Some(
            Space { name, index, big_endian, delay, size, physical },
        ),
        _ => None,
    }
}

/// The kinds of symbol head: `<X_sym_head` for each kind of symbol, and `<userop_head`.
pub open spec fn is_sym_head_name(n: Seq<char>) -> bool {
    n == "subtable_sym_head"@ || n == "start_sym_head"@ || n == "end_sym_head"@ || n
        == "next2_sym_head"@ || n == "varnode_sym_head"@ || n == "valuemap_sym_head"@ || n
        == "varlist_sym_head"@ || n == "value_sym_head"@ || n == "context_sym_head"@ || n
        == "operand_sym_head"@ || n == "name_sym_head"@ || n == "userop_head"@
}

fn sym_head_name(n: &str) -> (r: bool)
    ensures
        r == is_sym_head_name(n@),
{
    str_eq(n, "subtable_sym_head") || str_eq(n, "start_sym_head") || str_eq(n, "end_sym_head")
        || str_eq(n, "next2_sym_head") || str_eq(n, "varnode_sym_head") || str_eq(
        n,
        "valuemap_sym_head",
    ) || str_eq(n, "varlist_sym_head") || str_eq(n, "value_sym_head") || str_eq(
        n,
        "context_sym_head",
    ) || str_eq(n, "operand_sym_head") || str_eq(n, "name_sym_head") || str_eq(n, "userop_head")
}

/// The kind of symbol a one-tag symbol element declares, by its tag name: a scope, a
/// symbol head, the start, end and next2 symbols, and a user operation.
pub open spec fn spec_small_symbol_ok(tv: TagV) -> bool {
    &&& tv.0 == TagKind::Empty
    &&& if tv.1 == "scope"@ {
        a_u32hex(tv, 1) is Some
    } else if is_sym_head_name(tv.1) || tv.1 == "start_sym"@ || tv.1 == "end_sym"@ || tv.1
        == "next2_sym"@ {
        attr_val(tv, 0) is Some && a_u32hex(tv, 1) is Some && a_u32hex(tv, 2) is Some
    } else if tv.1 == "userop"@ {
        attr_val(tv, 0) is Some && a_u32hex(tv, 1) is Some && a_u32hex(tv, 2) is Some && a_u32dec(
            tv,
            3,
        ) is Some
    } else {
        false
    }
}

/// The head of a symbol written in a tag: name, then id, then scope.
pub open spec fn spec_head(tv: TagV, h: SymbolHead) -> bool {
    attr_val(tv, 0) == Some(h.name@) && a_u32hex(tv, 2) == Some(h.scope)
}

/// The symbol a one-tag symbol element declares. A scope's parent is read from the
/// attribute that holds its id.
pub open spec fn spec_small_symbol(tv: TagV, sym: Symbol) -> bool {
    &&& spec_small_symbol_ok(tv)
    &&& a_u32hex(tv, 1) == Some(sym.id)
    &&& if tv.1 == "scope"@ {
        sym.body matches SymbolBody::Scope(sc) && a_u32hex(tv, 1) == Some(sc.parent)
    } else if is_sym_head_name(tv.1) {
        sym.body matches SymbolBody::SymHead(h) && spec_head(tv, h)
    } else if tv.1 == "start_sym"@ {
        sym.body matches SymbolBody::Start(h) && spec_head(tv, h)
    } else if tv.1 == "end_sym"@ {
        sym.body matches SymbolBody::End(h) && spec_head(tv, h)
    } else if tv.1 == "next2_sym"@ {
        sym.body matches SymbolBody::Next2(h) && spec_head(tv, h)
    } else {
        sym.body matches SymbolBody::UserOp(u) && attr_val(tv, 0) == Some(u.name@) && a_u32hex(
            tv,
            2,
        ) == Some(u.scope) && a_u32dec(tv, 3) == Some(u.idx)
    }
}

fn read_head(t: &XmlTag) -> (r: Option<SymbolHead>)
    ensures
        r is Some == (attr_val(t@, 0) is Some && a_u32hex(t@, 2) is Some),
        r is Some ==> spec_head(t@, r->0),
{
    match (attr_string(t, 0), attr_u32hex(t, 2)) {
        (Some(name), Some(scope)) => Some(SymbolHead { name, scope }),
        _ => None,
    }
}

/// Reads a symbol written as one tag.
pub fn read_small_symbol(t: &XmlTag) -> (r: Option<Symbol>)
    ensures
        r is Some == spec_small_symbol_ok(t@),
        r is Some ==> spec_small_symbol(t@, r->0),
{
    if t.kind != TagKind::Empty {
        return None;
    }
    let n = t.name.as_str();
    let id = match attr_u32hex(t, 1) {
        Some(id) => id,
        None => return None,
    };
    if str_eq(n, "scope") {
        return Some(Symbol { id, body: SymbolBody::Scope(Scope { parent: id }) });
    }
    if sym_head_name(n) || str_eq(n, "start_sym") || str_eq(n, "end_sym") || str_eq(n, "next2_sym") {
        let h = match read_head(t) {
            Some(h) => h,
            None => return None,
        };
        if sym_head_name(n) {
            return Some(Symbol { id, body: SymbolBody::SymHead(h) });
        } else if str_eq(n, "start_sym") {
            return Some(Symbol { id, body: SymbolBody::Start(h) });
        } else if str_eq(n, "end_sym") {
            return Some(Symbol { id, body: SymbolBody::End(h) });
        } else {
            return Some(Symbol { id, body: SymbolBody::Next2(h) });
        }
    }
    if str_eq(n, "userop") {
        return match (attr_string(t, 0), attr_u32hex(t, 2), attr_u32dec(t, 3)) {
            (Some(name), Some(scope), Some(idx)) => Some(
                Symbol { id, body: SymbolBody::UserOp(UserOp { name, scope, idx }) },
            ),
            _ => None,
        };
    }
    None
}

/// An operand of a constructor: `<oper` with the operand symbol's id.
pub open spec fn spec_oper(tv: TagV) -> Option<u32> {
    if tag_is(tv, TagKind::Empty, "oper"@) {
        a_u32hex(tv, 0)
    } else {
        None
    }
}

fn read_oper(t: &XmlTag) -> (r: Option<u32>)
    ensures
        r == spec_oper(t@),
{
    if is_tag(t, TagKind::Empty, "oper") {
        attr_u32hex(t, 0)
    } else {
        None
    }
}

/// Whether a tag is a piece of a constructor's display: `<opprint` with an operand
/// index, or `<print` with a piece of text.
pub open spec fn spec_print_ok(tv: TagV) -> bool {
    if tag_is(tv, TagKind::Empty, "opprint"@) {
        a_u32dec(tv, 0) is Some
    } else if tag_is(tv, TagKind::Empty, "print"@) {
        attr_val(tv, 0) is Some
    } else {
        false
    }
}

/// The piece of display a tag holds.
pub open spec fn spec_print(tv: TagV, p: PrintCommand) -> bool {
    &&& spec_print_ok(tv)
    &&& if tag_is(tv, TagKind::Empty, "opprint"@) {
        p matches PrintCommand::Op(k) && a_u32dec(tv, 0) == Some(k)
    } else {
        p matches PrintCommand::Piece(s) && attr_val(tv, 0) == Some(s@)
    }
}

fn read_print(t: &XmlTag) -> (r: Option<PrintCommand>)
    ensures
        r is Some == spec_print_ok(t@),
        r is Some ==> spec_print(t@, r->0),
{
    if is_tag(t, TagKind::Empty, "opprint") {
        match attr_u32dec(t, 0) {
            Some(k) => Some(PrintCommand::Op(k)),
            None => None,
        }
    } else if is_tag(t, TagKind::Empty, "print") {
        match attr_string(t, 0) {
            Some(s) => Some(PrintCommand::Piece(s)),
            None => None,
        }
    } else {
        None
    }
}

/// A context field: sign bit, start and end bit, start and end byte, and shift.
pub open spec fn spec_context_field(tv: TagV) -> Option<ContextField> {
    if tag_is(tv, TagKind::Empty, "contextfield"@) {
        match (a_bool(tv, 0), a_u32dec(tv, 1), a_u32dec(tv, 2), a_u32dec(tv, 3), a_u32dec(tv, 4), a_u32dec(tv, 5)) {
            (Some(sign_bit), Some(start_bit), Some(end_bit), Some(start_byte), Some(end_byte), Some(shift)) =>
                Some(ContextField { sign_bit, start_bit, end_bit, start_byte, end_byte, shift }),
            _ => None,
        }
    } else {
        None
    }
}

fn read_context_field(t: &XmlTag) -> (r: Option<ContextField>)
    ensures
        r == spec_context_field(t@),
{
    if !is_tag(t, TagKind::Empty, "contextfield") {
        return None;
    }
    match (attr_bool(t, 0), attr_u32dec(t, 1), attr_u32dec(t, 2), attr_u32dec(t, 3), attr_u32dec(t, 4), attr_u32dec(t, 5)) {
        (Some(sign_bit), Some(start_bit), Some(end_bit), Some(start_byte), Some(end_byte), Some(shift)) =>
            Some(ContextField { sign_bit, start_bit, end_bit, start_byte, end_byte, shift }),
        _ => None,
    }
}

/// A token field: big-endianness, sign bit, start and end bit, start and end byte, and
/// shift.
pub open spec fn spec_token_field(tv: TagV) -> Option<TokenField> {
    if tag_is(tv, TagKind::Empty, "tokenfield"@) {
        match (a_bool(tv, 0), a_bool(tv, 1), a_u32dec(tv, 2), a_u32dec(tv, 3), a_u32dec(tv, 4), a_u32dec(tv, 5), a_u32dec(tv, 6)) {
            (Some(big_endian), Some(sign_bit), Some(start_bit), Some(end_bit), Some(start_byte), Some(end_byte), Some(shift)) =>
                Some(TokenField { big_endian, sign_bit, start_bit, end_bit, start_byte, end_byte, shift }),
            _ => None,
        }
    } else {
        None
    }
}

fn read_token_field(t: &XmlTag) -> (r: Option<TokenField>)
    ensures
        r == spec_token_field(t@),
{
    if !is_tag(t, TagKind::Empty, "tokenfield") {
        return None;
    }
    match (attr_bool(t, 0), attr_bool(t, 1), attr_u32dec(t, 2), attr_u32dec(t, 3), attr_u32dec(t, 4), attr_u32dec(t, 5), attr_u32dec(t, 6)) {
        (Some(big_endian), Some(sign_bit), Some(start_bit), Some(end_bit), Some(start_byte), Some(end_byte), Some(shift)) =>
            Some(TokenField { big_endian, sign_bit, start_bit, end_bit, start_byte, end_byte, shift }),
        _ => None,
    }
}

/// A field: a context field, else a token field.
pub open spec fn spec_field(tv: TagV) -> Option<Field> {
    match spec_context_field(tv) {
        Some(c) => Some(Field::Context(c)),
        None => match spec_token_field(tv) {
            Some(t) => Some(Field::Token(t)),
            None => None,
        },
    }
}

fn read_field(t: &XmlTag) -> (r: Option<Field>)
    ensures
        r == spec_field(t@),
{
    match read_context_field(t) {
        Some(c) => Some(Field::Context(c)),
        None => match read_token_field(t) {
            Some(f) => Some(Field::Token(f)),
            None => None,
        },
    }
}

/// An entry of a value map: `<valuetab` with a decimal value.
pub open spec fn spec_valuetab(tv: TagV) -> Option<u64> {
    if tag_is(tv, TagKind::Empty, "valuetab"@) {
        a_u64dec(tv, 0)
    } else {
        None
    }
}

fn read_valuetab(t: &XmlTag) -> (r: Option<u64>)
    ensures
        r == spec_valuetab(t@),
{
    if is_tag(t, TagKind::Empty, "valuetab") {
        attr_u64dec(t, 0)
    } else {
        None
    }
}

/// An entry of a varnode list: `<var` with a symbol id, or `<null/>` for none.
pub open spec fn spec_var(tv: TagV) -> Option<Option<u32>> {
    if tag_is(tv, TagKind::Empty, "var"@) {
        match a_u32hex(tv, 0) {
            Some(id) => Some(Some(id)),
            None => None,
        }
    } else if tag_is(tv, TagKind::Empty, "null"@) && tv.2.len() == 0 {
        Some(None)
    } else {
        None
    }
}

fn read_var(t: &XmlTag) -> (r: Option<Option<u32>>)
    ensures
        r == spec_var(t@),
{
    if is_tag(t, TagKind::Empty, "var") {
        match attr_u32hex(t, 0) {
            Some(id) => Some(Some(id)),
            None => None,
        }
    } else if is_tag(t, TagKind::Empty, "null") && t.attrs.len() == 0 {
        Some(None)
    } else {
        None
    }
}

/// Whether a tag is an entry of a name table: `<nametab`, with a name or without one.
pub open spec fn spec_nametab_ok(tv: TagV) -> bool {
    tag_is(tv, TagKind::Empty, "nametab"@)
}

/// The entry of a name table a tag holds: its first attribute, or none without one.
pub open spec fn spec_nametab(tv: TagV, n: Option<String>) -> bool {
    &&& spec_nametab_ok(tv)
    &&& if tv.2.len() == 0 {
        n is None
    } else {
        n is Some && attr_val(tv, 0) == Some(n->0@)
    }
}

fn read_nametab(t: &XmlTag) -> (r: Option<Option<String>>)
    ensures
        r is Some == spec_nametab_ok(t@),
        r is Some ==> spec_nametab(t@, r->0),
{
    if !is_tag(t, TagKind::Empty, "nametab") {
        return None;
    }
    if t.attrs.len() == 0 {
        Some(None)
    } else {
        Some(attr_string(t, 0))
    }
}

/// A word of a pattern: `<mask_word` with mask and value.
pub open spec fn spec_mask_word(tv: TagV) -> Option<MaskWord> {
    if tag_is(tv, TagKind::Empty, "mask_word"@) {
        match (a_u32hex(tv, 0), a_u32hex(tv, 1)) {
            (Some(mask), Some(val)) => Some(MaskWord { mask, val }),
            _ => None,
        }
    } else {
        None
    }
}

fn read_mask_word(t: &XmlTag) -> (r: Option<MaskWord>)
    ensures
        r == spec_mask_word(t@),
{
    if !is_tag(t, TagKind::Empty, "mask_word") {
        return None;
    }
    match (attr_u32hex(t, 0), attr_u32hex(t, 1)) {
        (Some(mask), Some(val)) => Some(MaskWord { mask, val }),
        _ => None,
    }
}

/// Whether a tag is a constant template: `<const_tpl` whose first attribute names its
/// type (`spaceid`, `real`, `handle`, `relative`, `start`, `next`, `curspace`,
/// `curspace_size`) and whose next one holds its value where the type has one.
pub open spec fn spec_const_tpl_ok(tv: TagV) -> bool {
    &&& tag_is(tv, TagKind::Empty, "const_tpl"@)
    &&& match attr_val(tv, 0) {
        None => false,
        Some(ty) => if ty == "spaceid"@ {
            attr_val(tv, 1) is Some
        } else if ty == "real"@ {
            a_u64hex(tv, 1) is Some
        } else if ty == "handle"@ {
            a_u32dec(tv, 1) is Some && (spec_offset_plus(tv) ==> a_u32hex(tv, 3) is Some)
        } else if ty == "relative"@ {
            a_u32hex(tv, 1) is Some
        } else {
            ty == "start"@ || ty == "next"@ || ty == "curspace"@ || ty == "curspace_size"@
        },
    }
}

/// Whether a handle's constant template adds to the handle's offset: its third attribute
/// is `s="offset_plus"`.
pub open spec fn spec_offset_plus(tv: TagV) -> bool {
    tv.2.len() > 2 && tv.2[2].0 == "s"@ && tv.2[2].1 == "offset_plus"@
}

/// The constant template a tag holds. A handle's offset addend keeps the low 16 bits of
/// the fourth attribute.
pub open spec fn spec_const_tpl(tv: TagV, c: ConstTemplate) -> bool {
    &&& spec_const_tpl_ok(tv)
    &&& {
        let ty = attr_val(tv, 0)->0;
        if ty == "spaceid"@ {
            c matches ConstTemplate::SpaceId(s) && attr_val(tv, 1) == Some(s@)
        } else if ty == "real"@ {
            c matches ConstTemplate::Val(v) && a_u64hex(tv, 1) == Some(v)
        } else if ty == "handle"@ {
            c matches ConstTemplate::Handle((h, e)) && a_u32dec(tv, 1) == Some(h) && if spec_offset_plus(tv) {
                e matches Some(HandleExpr::OffsetPlus(p)) && p == (a_u32hex(tv, 3)->0 & 0xffff)
            } else {
                e is None
            }
        } else if ty == "relative"@ {
            c matches ConstTemplate::Relative(v) && a_u32hex(tv, 1) == Some(v)
        } else if ty == "start"@ {
            c is Start
        } else if ty == "next"@ {
            c is Next
        } else if ty == "curspace"@ {
            c is CurSpace
        } else {
            c is CurSpaceSize
        }
    }
}

fn offset_plus(t: &XmlTag) -> (r: bool)
    ensures
        r == spec_offset_plus(t@),
{
    if t.attrs.len() > 2 {
        assert(t@.2[2] == (t.attrs@[2].0@, t.attrs@[2].1@));
        str_eq(t.attrs[2].0.as_str(), "s") && str_eq(t.attrs[2].1.as_str(), "offset_plus")
    } else {
        false
    }
}

/// Reads a constant template from one tag.
pub fn read_const_tpl(t: &XmlTag) -> (r: Option<ConstTemplate>)
    ensures
        r is Some == spec_const_tpl_ok(t@),
        r is Some ==> spec_const_tpl(t@, r->0),
{
    if !is_tag(t, TagKind::Empty, "const_tpl") {
        return None;
    }
    let ty = match attr_str(t, 0) {
        Some(ty) => ty,
        None => return None,
    };
    if str_eq(ty, "spaceid") {
        match attr_string(t, 1) {
            Some(s) => Some(ConstTemplate::SpaceId(s)),
            None => None,
        }
    } else if str_eq(ty, "real") {
        match attr_u64hex(t, 1) {
            Some(v) => Some(ConstTemplate::Val(v)),
            None => None,
        }
    } else if str_eq(ty, "handle") {
        let h = match attr_u32dec(t, 1) {
            Some(h) => h,
            None => return None,
        };
        if offset_plus(t) {
            match attr_u32hex(t, 3) {
                Some(p) => Some(ConstTemplate::Handle((h, Some(HandleExpr::OffsetPlus(p & 0xffff))))),
                None => None,
            }
        } else {
            Some(ConstTemplate::Handle((h, None)))
        }
    } else if str_eq(ty, "relative") {
        match attr_u32hex(t, 1) {
            Some(v) => Some(ConstTemplate::Relative(v)),
            None => None,
        }
    } else if str_eq(ty, "start") {
        Some(ConstTemplate::Start)
    } else if str_eq(ty, "next") {
        Some(ConstTemplate::Next)
    } else if str_eq(ty, "curspace") {
        Some(ConstTemplate::CurSpace)
    } else if str_eq(ty, "curspace_size") {
        Some(ConstTemplate::CurSpaceSize)
    } else {
        None
    }
}

// ---------------------------------------------------------------------------------------
// Pattern expressions

/// The operand expression of a tag: `<operand_exp` with index, table and constructor.
pub open spec fn spec_operand_exp(tv: TagV) -> Option<OperandExpr> {
    if tag_is(tv, TagKind::Empty, "operand_exp"@) {
        match (a_u32dec(tv, 0), a_u32hex(tv, 1), a_u32hex(tv, 2)) {
            (Some(idx), Some(table), Some(ct)) => Some(OperandExpr { idx, table, ct }),
            _ => None,
        }
    } else {
        None
    }
}

fn read_operand_exp(t: &XmlTag) -> (r: Option<OperandExpr>)
    ensures
        r == spec_operand_exp(t@),
{
    if !is_tag(t, TagKind::Empty, "operand_exp") {
        return None;
    }
    match (attr_u32dec(t, 0), attr_u32hex(t, 1), attr_u32hex(t, 2)) {
        (Some(idx), Some(table), Some(ct)) => Some(OperandExpr { idx, table, ct }),
        _ => None,
    }
}

/// The binary operator an expression element names.
pub open spec fn spec_binop(n: Seq<char>) -> Option<ExprOp> {
    if n == "plus_exp"@ {
        Some(ExprOp::Add)
    } else if n == "sub_exp"@ {
        Some(ExprOp::Sub)
    } else if n == "and_exp"@ {
        Some(ExprOp::And)
    } else if n == "xor_exp"@ {
        Some(ExprOp::Xor)
    } else if n == "or_exp"@ {
        Some(ExprOp::Or)
    } else if n == "lshift_exp"@ {
        Some(ExprOp::Lshift)
    } else if n == "rshift_exp"@ {
        Some(ExprOp::Rshift)
    } else if n == "mult_exp"@ {
        Some(ExprOp::Mult)
    } else {
        None
    }
}

fn binop_of(n: &str) -> (r: Option<ExprOp>)
    ensures
        r == spec_binop(n@),
{
    if str_eq(n, "plus_exp") {
        Some(ExprOp::Add)
    } else if str_eq(n, "sub_exp") {
        Some(ExprOp::Sub)
    } else if str_eq(n, "and_exp") {
        Some(ExprOp::And)
    } else if str_eq(n, "xor_exp") {
        Some(ExprOp::Xor)
    } else if str_eq(n, "or_exp") {
        Some(ExprOp::Or)
    } else if str_eq(n, "lshift_exp") {
        Some(ExprOp::Lshift)
    } else if str_eq(n, "rshift_exp") {
        Some(ExprOp::Rshift)
    } else if str_eq(n, "mult_exp") {
        Some(ExprOp::Mult)
    } else {
        None
    }
}

/// The name of the element that holds an expression with operator `op`: `plus_exp` for an
/// addition, `sub_exp` for a subtraction, `lshift_exp` and `rshift_exp` for the shifts, and
/// so on; `not_exp` and `minus_exp` for the two unary operators.
pub open spec fn spec_exprop_element(op: ExprOp) -> Seq<char> {
    match op {
        ExprOp::Not => "not_exp"@,
        ExprOp::Minus => "minus_exp"@,
        ExprOp::Xor => "xor_exp"@,
        ExprOp::Add => "plus_exp"@,
        ExprOp::Sub => "sub_exp"@,
        ExprOp::Lshift => "lshift_exp"@,
        ExprOp::Rshift => "rshift_exp"@,
        ExprOp::Mult => "mult_exp"@,
        ExprOp::And => "and_exp"@,
        ExprOp::Or => "or_exp"@,
    }
}

/// The binary operator read from an expression element is the one its name stands for:
/// `lshift_exp` gives a left shift, `rshift_exp` a right shift, `plus_exp` an addition,
/// `sub_exp` a subtraction, and so on; the elements of the unary operators give none, and
/// an element that gives an operator is the one named for it.
pub proof fn lemma_binop_of_element(op: ExprOp, n: Seq<char>)
    ensures
        spec_binop(spec_exprop_element(op)) == (if op == ExprOp::Not || op == ExprOp::Minus {
            None
        } else {
            Some(op)
        }),
        spec_binop(n) == Some(op) ==> n == spec_exprop_element(op),
{
    reveal_strlit("not_exp");
    assert("not_exp"@.len() == 7 && "not_exp"@[0] == 'n');
    reveal_strlit("minus_exp");
    assert("minus_exp"@.len() == 9 && "minus_exp"@[0] == 'm');
    reveal_strlit("xor_exp");
    assert("xor_exp"@.len() == 7 && "xor_exp"@[0] == 'x');
    reveal_strlit("plus_exp");
    assert("plus_exp"@.len() == 8 && "plus_exp"@[0] == 'p');
    reveal_strlit("sub_exp");
    assert("sub_exp"@.len() == 7 && "sub_exp"@[0] == 's');
    reveal_strlit("lshift_exp");
    assert("lshift_exp"@.len() == 10 && "lshift_exp"@[0] == 'l');
    reveal_strlit("rshift_exp");
    assert("rshift_exp"@.len() == 10 && "rshift_exp"@[0] == 'r');
    reveal_strlit("mult_exp");
    assert("mult_exp"@.len() == 8 && "mult_exp"@[0] == 'm');
    reveal_strlit("and_exp");
    assert("and_exp"@.len() == 7 && "and_exp"@[0] == 'a');
    reveal_strlit("or_exp");
    assert("or_exp"@.len() == 6 && "or_exp"@[0] == 'o');
}

/// Whether a tag is an expression of its own: `<start_exp/>`, `<end_exp/>`,
/// `<next2_exp/>`, a constant `<intb`, an operand expression, or a field.
pub open spec fn spec_leaf_expr_ok(tv: TagV) -> bool {
    if tv.0 == TagKind::Empty && tv.2.len() == 0 && (tv.1 == "start_exp"@ || tv.1 == "end_exp"@
        || tv.1 == "next2_exp"@) {
        true
    } else if tag_is(tv, TagKind::Empty, "intb"@) {
        a_i64dec(tv, 0) is Some
    } else if tag_is(tv, TagKind::Empty, "operand_exp"@) {
        spec_operand_exp(tv) is Some
    } else {
        spec_field(tv) is Some
    }
}

/// Whether a tag opens a unary expression: `<not_exp>` or `<minus_exp>`.
pub open spec fn is_unary_open(tv: TagV) -> bool {
    tv.0 == TagKind::Open && tv.2.len() == 0 && (tv.1 == "not_exp"@ || tv.1 == "minus_exp"@)
}

/// Whether a tag opens a binary expression (`<plus_exp>`, ...).
pub open spec fn is_binary_open(tv: TagV) -> bool {
    tv.0 == TagKind::Open && tv.2.len() == 0 && spec_binop(tv.1) is Some
}

/// Where the expression that starts at `i` ends: one tag for an expression of its own;
/// an opening tag, one or two expressions and a closing tag for an operator.
pub open spec fn spec_expr_end(t: Seq<TagV>, i: int) -> Option<int>
    decreases t.len() - i,
{
    if i < 0 || i >= t.len() {
        None
    } else if spec_leaf_expr_ok(t[i]) {
        Some(i + 1)
    } else if is_unary_open(t[i]) {
        match spec_expr_end(t, i + 1) {
            Some(k) => if i < k < t.len() && t[k].0 == TagKind::Close {
                Some(k + 1)
            } else {
                None
            },
            None => None,
        }
    } else if is_binary_open(t[i]) {
        match spec_expr_end(t, i + 1) {
            Some(k) => if i < k <= t.len() {
                match spec_expr_end(t, k) {
                    Some(m) => if k < m < t.len() && t[m].0 == TagKind::Close {
                        Some(m + 1)
                    } else {
                        None
                    },
                    None => None,
                }
            } else {
                None
            },
            None => None,
        }
    } else {
        None
    }
}

/// The expression written from `i`.
pub open spec fn spec_expr(t: Seq<TagV>, i: int, e: Expr) -> bool
    decreases e,
{
    &&& spec_expr_end(t, i) is Some
    &&& {
        let tv = t[i];
        if tv.0 == TagKind::Empty && tv.2.len() == 0 && tv.1 == "start_exp"@ {
            e is Start
        } else if tv.0 == TagKind::Empty && tv.2.len() == 0 && tv.1 == "end_exp"@ {
            e is End
        } else if tv.0 == TagKind::Empty && tv.2.len() == 0 && tv.1 == "next2_exp"@ {
            e is Next2
        } else if tag_is(tv, TagKind::Empty, "intb"@) {
            e matches Expr::Const(v) && a_i64dec(tv, 0) == Some(v)
        } else if tag_is(tv, TagKind::Empty, "operand_exp"@) {
            e matches Expr::Operand(o) && spec_operand_exp(tv) == Some(o)
        } else if spec_field(tv) is Some {
            e matches Expr::Field(f) && spec_field(tv) == Some(f)
        } else if is_unary_open(tv) {
            match e {
                Expr::Unary((op, b)) => op == (if tv.1 == "not_exp"@ {
                    ExprOp::Not
                } else {
                    ExprOp::Minus
                }) && spec_expr(t, i + 1, *b),
                _ => false,
            }
        } else {
            match e {
                Expr::Binary((op, l, r)) => Some(op) == spec_binop(tv.1) && spec_expr(t, i + 1, *l)
                    && spec_expr(t, spec_expr_end(t, i + 1)->0, *r),
                _ => false,
            }
        }
    }
}

/// Reads the expression that starts at tag `i`, and where it ends.
pub fn read_expr(toks: &Vec<XmlTag>, i: usize) -> (r: Option<(Expr, usize)>)
    ensures
        match spec_expr_end(tags_view(toks@), i as int) {
            Some(j) => r is Some && r.unwrap().1 == j && i < j <= toks@.len() && spec_expr(
                tags_view(toks@),
                i as int,
                r.unwrap().0,
            ),
            None => r is None,
        },
    decreases toks@.len() - i,
{
    let ghost t = tags_view(toks@);
    if i >= toks.len() {
        return None;
    }
    let tag = &toks[i];
    assert(t[i as int] == tag@);
    let n = tag.name.as_str();
    if tag.kind == TagKind::Empty && tag.attrs.len() == 0 && str_eq(n, "start_exp") {
        return Some((Expr::Start, i + 1));
    }
    if tag.kind == TagKind::Empty && tag.attrs.len() == 0 && str_eq(n, "end_exp") {
        return Some((Expr::End, i + 1));
    }
    if tag.kind == TagKind::Empty && tag.attrs.len() == 0 && str_eq(n, "next2_exp") {
        return Some((Expr::Next2, i + 1));
    }
    if is_tag(tag, TagKind::Empty, "intb") {
        return match attr_i64dec(tag, 0) {
            Some(v) => Some((Expr::Const(v), i + 1)),
            None => None,
        };
    }
    if is_tag(tag, TagKind::Empty, "operand_exp") {
        return match read_operand_exp(tag) {
            Some(o) => Some((Expr::Operand(o), i + 1)),
            None => None,
        };
    }
    match read_field(tag) {
        Some(f) => return Some((Expr::Field(f), i + 1)),
        None => {},
    }
    if tag.kind != TagKind::Open || tag.attrs.len() != 0 {
        return None;
    }
    if str_eq(n, "not_exp") || str_eq(n, "minus_exp") {
        let op = if str_eq(n, "not_exp") {
            ExprOp::Not
        } else {
            ExprOp::Minus
        };
        let (b, k) = match read_expr(toks, i + 1) {
            Some(p) => p,
            None => return None,
        };
        if k < toks.len() && toks[k].kind == TagKind::Close {
            assert(t[k as int] == toks@[k as int]@);
            return Some((Expr::Unary((op, Box::new(b))), k + 1));
        }
        return None;
    }
    let op = match binop_of(n) {
        Some(op) => op,
        None => return None,
    };
    let (l, k) = match read_expr(toks, i + 1) {
        Some(p) => p,
        None => return None,
    };
    let (rhs, m) = match read_expr(toks, k) {
        Some(p) => p,
        None => return None,
    };
    if m < toks.len() && toks[m].kind == TagKind::Close {
        assert(t[m as int] == toks@[m as int]@);
        return Some((Expr::Binary((op, Box::new(l), Box::new(rhs))), m + 1));
    }
    None
}

/// Whether a context change starts at `i`: `<context_op` with word index, shift and mask,
/// then an expression, then `</context_op>`; where it ends.
pub open spec fn spec_context_op_end(t: Seq<TagV>, i: int) -> Option<int> {
    if 0 <= i < t.len() && tag_is(t[i], TagKind::Open, "context_op"@) && a_u32dec(t[i], 0) is Some
        && a_u32dec(t[i], 1) is Some && a_u32hex(t[i], 2) is Some {
        match spec_expr_end(t, i + 1) {
            Some(k) => if i < k < t.len() && tag_is(t[k], TagKind::Close, "context_op"@) {
                Some(k + 1)
            } else {
                None
            },
            None => None,
        }
    } else {
        None
    }
}

/// The context change written from `i`.
pub open spec fn spec_context_op(t: Seq<TagV>, i: int, c: ContextOp) -> bool {
    &&& spec_context_op_end(t, i) is Some
    &&& a_u32dec(t[i], 0) == Some(c.i)
    &&& a_u32dec(t[i], 1) == Some(c.shift)
    &&& a_u32hex(t[i], 2) == Some(c.mask)
    &&& spec_expr(t, i + 1, c.expr)
}

fn read_context_op(toks: &Vec<XmlTag>, i: usize) -> (r: Option<(ContextOp, usize)>)
    ensures
        match spec_context_op_end(tags_view(toks@), i as int) {
            Some(j) => r is Some && r.unwrap().1 == j && i < j <= toks@.len() && spec_context_op(
                tags_view(toks@),
                i as int,
                r.unwrap().0,
            ),
            None => r is None,
        },
{
    let ghost t = tags_view(toks@);
    if i >= toks.len() {
        return None;
    }
    let tag = &toks[i];
    assert(t[i as int] == tag@);
    if !is_tag(tag, TagKind::Open, "context_op") {
        return None;
    }
    let (ci, shift, mask) = match (attr_u32dec(tag, 0), attr_u32dec(tag, 1), attr_u32hex(tag, 2)) {
        (Some(a), Some(b), Some(c)) => (a, b, c),
        _ => return None,
    };
    let (expr, k) = match read_expr(toks, i + 1) {
        Some(p) => p,
        None => return None,
    };
    if k < toks.len() && is_tag(&toks[k], TagKind::Close, "context_op") {
        assert(t[k as int] == toks@[k as int]@);
        return Some((ContextOp { i: ci, shift, mask, expr }, k + 1));
    }
    None
}

/// The context changes written one after another from `i`: where each starts, and where
/// the run ends.
pub open spec fn spec_context_ops(t: Seq<TagV>, i: int) -> (Seq<int>, int)
    decreases t.len() - i,
{
    match spec_context_op_end(t, i) {
        Some(j) => if i < j <= t.len() {
            let (ss, e) = spec_context_ops(t, j);
            (seq![i] + ss, e)
        } else {
            (seq![], i)
        },
        None => (seq![], i),
    }
}

fn read_context_ops(toks: &Vec<XmlTag>, i: usize) -> (r: (Vec<ContextOp>, usize))
    requires
        i <= toks@.len(),
    ensures
        ({
            let (ss, e) = spec_context_ops(tags_view(toks@), i as int);
            &&& r.1 == e
            &&& i <= e <= toks@.len()
            &&& r.0@.len() == ss.len()
            &&& forall|k: int| 0 <= k < ss.len() ==> spec_context_op(tags_view(toks@), ss[k], #[trigger] r.0@[k])
        }),
{
    let ghost t = tags_view(toks@);
    let mut v: Vec<ContextOp> = Vec::new();
    let ghost mut ss: Seq<int> = seq![];
    let mut k: usize = i;
    loop
        invariant
            i <= k <= toks@.len(),
            t == tags_view(toks@),
            spec_context_ops(t, i as int) == (ss + spec_context_ops(t, k as int).0, spec_context_ops(t, k as int).1),
            v@.len() == ss.len(),
            forall|m: int| 0 <= m < ss.len() ==> spec_context_op(t, ss[m], #[trigger] v@[m]),
        decreases toks@.len() - k,
    {
        match read_context_op(toks, k) {
            Some((c, j)) => {
                proof {
                    let (rest, e) = spec_context_ops(t, j as int);
                    assert(spec_context_ops(t, k as int) == (seq![k as int] + rest, e));
                    assert(ss + (seq![k as int] + rest) =~= ss.push(k as int) + rest);
                    ss = ss.push(k as int);
                }
                v.push(c);
                k = j;
            },
            None => {
                proof {
                    assert(ss + seq![] =~= ss);
                }
                return (v, k);
            },
        }
    }
}

// ---------------------------------------------------------------------------------------
// P-code templates

/// Whether a tag is `<null/>`.
pub open spec fn is_null(tv: TagV) -> bool {
    tag_is(tv, TagKind::Empty, "null"@) && tv.2.len() == 0
}

fn read_is_null(t: &XmlTag) -> (r: bool)
    ensures
        r == is_null(t@),
{
    is_tag(t, TagKind::Empty, "null") && t.attrs.len() == 0
}

/// Where the varnode template that starts at `i` ends: `<null/>` for none, or
/// `<varnode_tpl>`, three constant templates (space, offset, size), `</varnode_tpl>`.
pub open spec fn spec_vtpl_end(t: Seq<TagV>, i: int) -> Option<int> {
    if 0 <= i < t.len() && is_null(t[i]) {
        Some(i + 1)
    } else if 0 <= i && i + 4 < t.len() && t[i] == (TagKind::Open, "varnode_tpl"@, Seq::<(Seq<char>, Seq<char>)>::empty())
        && spec_const_tpl_ok(t[i + 1]) && spec_const_tpl_ok(t[i + 2]) && spec_const_tpl_ok(t[i + 3])
        && tag_is(t[i + 4], TagKind::Close, "varnode_tpl"@) {
        Some(i + 5)
    } else {
        None
    }
}

/// The three constant templates of a varnode template, from `i`.
pub open spec fn spec_vtpl_parts(t: Seq<TagV>, i: int, v: VarnodeTemplate) -> bool {
    spec_const_tpl(t[i], v.space_template) && spec_const_tpl(t[i + 1], v.offset_template)
        && spec_const_tpl(t[i + 2], v.size_template)
}

/// The varnode template written from `i`.
pub open spec fn spec_vtpl(t: Seq<TagV>, i: int, v: Option<VarnodeTemplate>) -> bool {
    &&& spec_vtpl_end(t, i) is Some
    &&& if is_null(t[i]) {
        v is None
    } else {
        v is Some && spec_vtpl_parts(t, i + 1, v->0)
    }
}

fn tag_view_at(toks: &Vec<XmlTag>, i: usize) -> (r: &XmlTag)
    requires
        i < toks@.len(),
    ensures
        *r == toks@[i as int],
        r@ == tags_view(toks@)[i as int],
{
    &toks[i]
}

fn read_vtpl(toks: &Vec<XmlTag>, i: usize) -> (r: Option<(Option<VarnodeTemplate>, usize)>)
    ensures
        match spec_vtpl_end(tags_view(toks@), i as int) {
            Some(j) => r is Some && r.unwrap().1 == j && i < j <= toks@.len() && spec_vtpl(
                tags_view(toks@),
                i as int,
                r.unwrap().0,
            ),
            None => r is None,
        },
{
    let ghost t = tags_view(toks@);
    if i >= toks.len() {
        return None;
    }
    let t0 = tag_view_at(toks, i);
    if read_is_null(t0) {
        return Some((None, i + 1));
    }
    if !(is_tag(t0, TagKind::Open, "varnode_tpl") && t0.attrs.len() == 0) || toks.len() - i <= 4 {
        proof {
            if t0.attrs@.len() != 0 {
                assert(t0@.2.len() != 0);
                assert(t[i as int].2.len() != Seq::<(Seq<char>, Seq<char>)>::empty().len());
            }
        }
        return None;
    }
    assert(t0@.2 =~= Seq::<(Seq<char>, Seq<char>)>::empty());
    let a = match read_const_tpl(tag_view_at(toks, i + 1)) {
        Some(c) => c,
        None => return None,
    };
    let b = match read_const_tpl(tag_view_at(toks, i + 2)) {
        Some(c) => c,
        None => return None,
    };
    let c = match read_const_tpl(tag_view_at(toks, i + 3)) {
        Some(c) => c,
        None => return None,
    };
    if !is_tag(tag_view_at(toks, i + 4), TagKind::Close, "varnode_tpl") {
        return None;
    }
    Some((Some(VarnodeTemplate { space_template: a, offset_template: b, size_template: c }), i + 5))
}

/// The varnode templates written one after another from `i`: where each starts, and
/// where the run ends.
pub open spec fn spec_vtpls(t: Seq<TagV>, i: int) -> (Seq<int>, int)
    decreases t.len() - i,
{
    match spec_vtpl_end(t, i) {
        Some(j) => if i < j <= t.len() {
            let (ss, e) = spec_vtpls(t, j);
            (seq![i] + ss, e)
        } else {
            (seq![], i)
        },
        None => (seq![], i),
    }
}

/// The templates of the run `ss` that are not `<null/>`, in order.
pub open spec fn spec_vtpl_inputs(t: Seq<TagV>, ss: Seq<int>, v: Seq<VarnodeTemplate>) -> bool
    decreases ss.len(),
{
    if ss.len() == 0 {
        v.len() == 0
    } else if is_null(t[ss.last()]) {
        spec_vtpl_inputs(t, ss.drop_last(), v)
    } else {
        v.len() > 0 && spec_vtpl(t, ss.last(), Some(v.last())) && spec_vtpl_inputs(
            t,
            ss.drop_last(),
            v.drop_last(),
        )
    }
}

fn read_vtpl_inputs(toks: &Vec<XmlTag>, i: usize) -> (r: (Vec<VarnodeTemplate>, usize))
    requires
        i <= toks@.len(),
    ensures
        ({
            let (ss, e) = spec_vtpls(tags_view(toks@), i as int);
            &&& r.1 == e
            &&& i <= e <= toks@.len()
            &&& spec_vtpl_inputs(tags_view(toks@), ss, r.0@)
        }),
{
    let ghost t = tags_view(toks@);
    let mut v: Vec<VarnodeTemplate> = Vec::new();
    let ghost mut ss: Seq<int> = seq![];
    let mut k: usize = i;
    loop
        invariant
            i <= k <= toks@.len(),
            t == tags_view(toks@),
            spec_vtpls(t, i as int) == (ss + spec_vtpls(t, k as int).0, spec_vtpls(t, k as int).1),
            spec_vtpl_inputs(t, ss, v@),
        decreases toks@.len() - k,
    {
        match read_vtpl(toks, k) {
            Some((o, j)) => {
                proof {
                    let (rest, e) = spec_vtpls(t, j as int);
                    assert(spec_vtpls(t, k as int) == (seq![k as int] + rest, e));
                    assert(ss + (seq![k as int] + rest) =~= ss.push(k as int) + rest);
                    assert(ss.push(k as int).drop_last() =~= ss);
                }
                match o {
                    Some(x) => {
                        let ghost old_v = v@;
                        v.push(x);
                        assert(v@.drop_last() =~= old_v);
                    },
                    None => {},
                }
                proof {
                    ss = ss.push(k as int);
                }
                k = j;
            },
            None => {
                proof {
                    assert(ss + seq![] =~= ss);
                }
                return (v, k);
            },
        }
    }
}

/// Where the operation template that starts at `i` ends: an optional `<null/>`, then
/// `<op_tpl` with the operation's name, the output's varnode template, the inputs'
/// varnode templates, and `</op_tpl>`.
pub open spec fn spec_op_tpl_end(t: Seq<TagV>, i: int) -> Option<int> {
    let p = if 0 <= i < t.len() && is_null(t[i]) {
        i + 1
    } else {
        i
    };
    if 0 <= p < t.len() && tag_is(t[p], TagKind::Open, "op_tpl"@) && attr_val(t[p], 0) is Some {
        match spec_vtpl_end(t, p + 1) {
            Some(k) => {
                let e = spec_vtpls(t, k).1;
                if e < t.len() && tag_is(t[e], TagKind::Close, "op_tpl"@) {
                    Some(e + 1)
                } else {
                    None
                }
            },
            None => None,
        }
    } else {
        None
    }
}

/// The operation template written from `i`.
pub open spec fn spec_op_tpl(t: Seq<TagV>, i: int, o: OpTemplate) -> bool {
    &&& spec_op_tpl_end(t, i) is Some
    &&& {
        let p = if is_null(t[i]) {
            i + 1
        } else {
            i
        };
        &&& attr_val(t[p], 0) == Some(o.code@)
        &&& spec_vtpl(t, p + 1, o.output)
        &&& spec_vtpl_inputs(t, spec_vtpls(t, spec_vtpl_end(t, p + 1)->0).0, o.inputs@)
    }
}

fn read_op_tpl(toks: &Vec<XmlTag>, i: usize) -> (r: Option<(OpTemplate, usize)>)
    ensures
        match spec_op_tpl_end(tags_view(toks@), i as int) {
            Some(j) => r is Some && r.unwrap().1 == j && i < j <= toks@.len() && spec_op_tpl(
                tags_view(toks@),
                i as int,
                r.unwrap().0,
            ),
            None => r is None,
        },
{
    let ghost t = tags_view(toks@);
    if i >= toks.len() {
        return None;
    }
    let p = if read_is_null(tag_view_at(toks, i)) {
        i + 1
    } else {
        i
    };
    if p >= toks.len() {
        return None;
    }
    let tp = tag_view_at(toks, p);
    if !is_tag(tp, TagKind::Open, "op_tpl") {
        return None;
    }
    let code = match attr_string(tp, 0) {
        Some(c) => c,
        None => return None,
    };
    let (output, k) = match read_vtpl(toks, p + 1) {
        Some(x) => x,
        None => return None,
    };
    let (inputs, e) = read_vtpl_inputs(toks, k);
    if e < toks.len() && is_tag(tag_view_at(toks, e), TagKind::Close, "op_tpl") {
        Some((OpTemplate { code, output, inputs }, e + 1))
    } else {
        None
    }
}

/// Where the handle template that starts at `i` ends: an optional `<null/>`, then
/// `<handle_tpl>`, seven constant templates, and `</handle_tpl>`.
pub open spec fn spec_handle_tpl_end(t: Seq<TagV>, i: int) -> Option<int> {
    let p = if 0 <= i < t.len() && is_null(t[i]) {
        i + 1
    } else {
        i
    };
    if 0 <= p && p + 8 < t.len() && t[p] == (TagKind::Open, "handle_tpl"@, Seq::<(Seq<char>, Seq<char>)>::empty())
        && (forall|k: int| p + 1 <= k <= p + 7 ==> spec_const_tpl_ok(#[trigger] t[k]))
        && tag_is(t[p + 8], TagKind::Close, "handle_tpl"@) {
        Some(p + 9)
    } else {
        None
    }
}

/// The handle template written from `i`: the space and size, the pointer's varnode
/// template, and the temporary's space and offset.
pub open spec fn spec_handle_tpl(t: Seq<TagV>, i: int, h: HandleTemplate) -> bool {
    &&& spec_handle_tpl_end(t, i) is Some
    &&& {
        let p = if is_null(t[i]) {
            i + 1
        } else {
            i
        };
        &&& spec_const_tpl(t[p + 1], h.space_template)
        &&& spec_const_tpl(t[p + 2], h.size_template)
        &&& spec_vtpl_parts(t, p + 3, h.pointer_template)
        &&& spec_const_tpl(t[p + 6], h.temp_space_template)
        &&& spec_const_tpl(t[p + 7], h.temp_offset_template)
    }
}

fn read_handle_tpl(toks: &Vec<XmlTag>, i: usize) -> (r: Option<(HandleTemplate, usize)>)
    ensures
        match spec_handle_tpl_end(tags_view(toks@), i as int) {
            Some(j) => r is Some && r.unwrap().1 == j && i < j <= toks@.len() && spec_handle_tpl(
                tags_view(toks@),
                i as int,
                r.unwrap().0,
            ),
            None => r is None,
        },
{
    let ghost t = tags_view(toks@);
    if i >= toks.len() {
        return None;
    }
    let p = if read_is_null(tag_view_at(toks, i)) {
        i + 1
    } else {
        i
    };
    if p >= toks.len() || toks.len() - p <= 8 {
        return None;
    }
    let tp = tag_view_at(toks, p);
    if !(is_tag(tp, TagKind::Open, "handle_tpl") && tp.attrs.len() == 0) {
        proof {
            if tp.attrs@.len() != 0 {
                assert(tp@.2.len() != 0);
                assert(t[p as int].2.len() != Seq::<(Seq<char>, Seq<char>)>::empty().len());
            }
        }
        return None;
    }
    assert(tp@.2 =~= Seq::<(Seq<char>, Seq<char>)>::empty());
    let space_template = match read_const_tpl(tag_view_at(toks, p + 1)) {
        Some(c) => c,
        None => return None,
    };
    let size_template = match read_const_tpl(tag_view_at(toks, p + 2)) {
        Some(c) => c,
        None => return None,
    };
    let space = match read_const_tpl(tag_view_at(toks, p + 3)) {
        Some(c) => c,
        None => return None,
    };
    let offset = match read_const_tpl(tag_view_at(toks, p + 4)) {
        Some(c) => c,
        None => return None,
    };
    let size = match read_const_tpl(tag_view_at(toks, p + 5)) {
        Some(c) => c,
        None => return None,
    };
    let temp_space_template = match read_const_tpl(tag_view_at(toks, p + 6)) {
        Some(c) => c,
        None => return None,
    };
    let temp_offset_template = match read_const_tpl(tag_view_at(toks, p + 7)) {
        Some(c) => c,
        None => return None,
    };
    if !is_tag(tag_view_at(toks, p + 8), TagKind::Close, "handle_tpl") {
        return None;
    }
    assert forall|m: int| p + 1 <= m <= p + 7 implies spec_const_tpl_ok(#[trigger] t[m]) by {
        if m == p + 1 {} else if m == p + 2 {} else if m == p + 3 {} else if m == p + 4 {} else if m == p + 5 {} else if m == p + 6 {} else {}
    }
    let pointer_template = VarnodeTemplate { space_template: space, offset_template: offset, size_template: size };
    Some((HandleTemplate { space_template, size_template, pointer_template, temp_space_template, temp_offset_template }, p + 9))
}

/// Where the statement that starts at `i` ends: an operation template, else a handle
/// template.
pub open spec fn spec_stmt_end(t: Seq<TagV>, i: int) -> Option<int> {
    match spec_op_tpl_end(t, i) {
        Some(j) => Some(j),
        None => spec_handle_tpl_end(t, i),
    }
}

/// The statement written from `i`.
pub open spec fn spec_stmt(t: Seq<TagV>, i: int, c: ConsTemplate) -> bool {
    if spec_op_tpl_end(t, i) is Some {
        c matches ConsTemplate::Op(o) && spec_op_tpl(t, i, o)
    } else {
        c matches ConsTemplate::Handle(h) && spec_handle_tpl(t, i, h)
    }
}

/// The statements written one after another from `i`: where each starts, and where the
/// run ends.
pub open spec fn spec_stmts(t: Seq<TagV>, i: int) -> (Seq<int>, int)
    decreases t.len() - i,
{
    match spec_stmt_end(t, i) {
        Some(j) => if i < j <= t.len() {
            let (ss, e) = spec_stmts(t, j);
            (seq![i] + ss, e)
        } else {
            (seq![], i)
        },
        None => (seq![], i),
    }
}

fn read_stmts(toks: &Vec<XmlTag>, i: usize) -> (r: (Vec<ConsTemplate>, usize))
    requires
        i <= toks@.len(),
    ensures
        ({
            let (ss, e) = spec_stmts(tags_view(toks@), i as int);
            &&& r.1 == e
            &&& i <= e <= toks@.len()
            &&& r.0@.len() == ss.len()
            &&& forall|k: int| 0 <= k < ss.len() ==> spec_stmt(tags_view(toks@), ss[k], #[trigger] r.0@[k])
        }),
{
    let ghost t = tags_view(toks@);
    let mut v: Vec<ConsTemplate> = Vec::new();
    let ghost mut ss: Seq<int> = seq![];
    let mut k: usize = i;
    loop
        invariant
            i <= k <= toks@.len(),
            t == tags_view(toks@),
            spec_stmts(t, i as int) == (ss + spec_stmts(t, k as int).0, spec_stmts(t, k as int).1),
            v@.len() == ss.len(),
            forall|m: int| 0 <= m < ss.len() ==> spec_stmt(t, ss[m], #[trigger] v@[m]),
        decreases toks@.len() - k,
    {
        let next = match read_op_tpl(toks, k) {
            Some((o, j)) => Some((ConsTemplate::Op(o), j)),
            None => match read_handle_tpl(toks, k) {
                Some((h, j)) => Some((ConsTemplate::Handle(h), j)),
                None => None,
            },
        };
        match next {
            Some((c, j)) => {
                proof {
                    let (rest, e) = spec_stmts(t, j as int);
                    assert(spec_stmts(t, k as int) == (seq![k as int] + rest, e));
                    assert(ss + (seq![k as int] + rest) =~= ss.push(k as int) + rest);
                    ss = ss.push(k as int);
                }
                v.push(c);
                k = j;
            },
            None => {
                proof {
                    assert(ss + seq![] =~= ss);
                }
                return (v, k);
            },
        }
    }
}

/// The number of labels a constructor template declares: none without attributes, else
/// its one attribute read as a decimal number.
pub open spec fn spec_num_labels(tv: TagV) -> Option<u32> {
    if tv.2.len() == 0 {
        Some(0)
    } else if tv.2.len() == 1 {
        a_u32dec(tv, 0)
    } else {
        None
    }
}

/// Where the constructor template that starts at `i` ends: `<construct_tpl`, its
/// statements, and `</construct_tpl>`; or, without statements, `<null/>` before the end.
pub open spec fn spec_construct_tpl_end(t: Seq<TagV>, i: int) -> Option<int> {
    if 0 <= i < t.len() && t[i].0 == TagKind::Open && t[i].1 == "construct_tpl"@ && spec_num_labels(t[i]) is Some {
        let (ss, e) = spec_stmts(t, i + 1);
        if e < t.len() && tag_is(t[e], TagKind::Close, "construct_tpl"@) {
            Some(e + 1)
        } else if ss.len() == 0 && e + 1 < t.len() && is_null(t[e]) && tag_is(t[e + 1], TagKind::Close, "construct_tpl"@) {
            Some(e + 2)
        } else {
            None
        }
    } else {
        None
    }
}

/// The constructor template written from `i`.
pub open spec fn spec_construct_tpl(t: Seq<TagV>, i: int, c: ConstructorTemplate) -> bool {
    &&& spec_construct_tpl_end(t, i) is Some
    &&& spec_num_labels(t[i]) == Some(c.num_labels)
    &&& {
        let ss = spec_stmts(t, i + 1).0;
        &&& c.statements@.len() == ss.len()
        &&& forall|k: int| 0 <= k < ss.len() ==> spec_stmt(t, ss[k], #[trigger] c.statements@[k])
    }
}

fn read_construct_tpl(toks: &Vec<XmlTag>, i: usize) -> (r: Option<(ConstructorTemplate, usize)>)
    ensures
        match spec_construct_tpl_end(tags_view(toks@), i as int) {
            Some(j) => r is Some && r.unwrap().1 == j && i < j <= toks@.len() && spec_construct_tpl(
                tags_view(toks@),
                i as int,
                r.unwrap().0,
            ),
            None => r is None,
        },
{
    let ghost t = tags_view(toks@);
    if i >= toks.len() {
        return None;
    }
    let ti = tag_view_at(toks, i);
    if !is_tag(ti, TagKind::Open, "construct_tpl") {
        return None;
    }
    let num_labels = if ti.attrs.len() == 0 {
        0
    } else if ti.attrs.len() == 1 {
        match attr_u32dec(ti, 0) {
            Some(n) => n,
            None => return None,
        }
    } else {
        return None;
    };
    let (statements, e) = read_stmts(toks, i + 1);
    if e < toks.len() && is_tag(tag_view_at(toks, e), TagKind::Close, "construct_tpl") {
        return Some((ConstructorTemplate { num_labels, statements }, e + 1));
    }
    if statements.len() == 0 && e < toks.len() && toks.len() - e > 1 && read_is_null(tag_view_at(toks, e))
        && is_tag(tag_view_at(toks, e + 1), TagKind::Close, "construct_tpl") {
        return Some((ConstructorTemplate { num_labels, statements }, e + 2));
    }
    None
}

// ---------------------------------------------------------------------------------------
// Constructors

/// Where the run of `<oper` tags from `i` ends.
pub open spec fn spec_oper_run(t: Seq<TagV>, i: int) -> int
    decreases t.len() - i,
{
    if 0 <= i < t.len() && spec_oper(t[i]) is Some {
        spec_oper_run(t, i + 1)
    } else {
        i
    }
}

/// Where the run of display pieces from `i` ends.
pub open spec fn spec_print_run(t: Seq<TagV>, i: int) -> int
    decreases t.len() - i,
{
    if 0 <= i < t.len() && spec_print_ok(t[i]) {
        spec_print_run(t, i + 1)
    } else {
        i
    }
}

fn read_opers(toks: &Vec<XmlTag>, i: usize) -> (r: (Vec<u32>, usize))
    requires
        i <= toks@.len(),
    ensures
        r.1 == spec_oper_run(tags_view(toks@), i as int),
        i <= r.1 <= toks@.len(),
        r.0@.len() == r.1 - i,
        forall|k: int| 0 <= k < r.0@.len() ==> spec_oper(tags_view(toks@)[i + k]) == Some(#[trigger] r.0@[k]),
{
    let ghost t = tags_view(toks@);
    let mut v: Vec<u32> = Vec::new();
    let mut k: usize = i;
    while k < toks.len()
        invariant
            i <= k <= toks@.len(),
            t == tags_view(toks@),
            spec_oper_run(t, i as int) == spec_oper_run(t, k as int),
            v@.len() == k - i,
            forall|m: int| 0 <= m < v@.len() ==> spec_oper(t[i + m]) == Some(#[trigger] v@[m]),
        decreases toks@.len() - k,
    {
        match read_oper(tag_view_at(toks, k)) {
            Some(x) => v.push(x),
            None => return (v, k),
        }
        k = k + 1;
    }
    (v, k)
}

fn read_prints(toks: &Vec<XmlTag>, i: usize) -> (r: (Vec<PrintCommand>, usize))
    requires
        i <= toks@.len(),
    ensures
        r.1 == spec_print_run(tags_view(toks@), i as int),
        i <= r.1 <= toks@.len(),
        r.0@.len() == r.1 - i,
        forall|k: int| 0 <= k < r.0@.len() ==> spec_print(tags_view(toks@)[i + k], #[trigger] r.0@[k]),
{
    let ghost t = tags_view(toks@);
    let mut v: Vec<PrintCommand> = Vec::new();
    let mut k: usize = i;
    while k < toks.len()
        invariant
            i <= k <= toks@.len(),
            t == tags_view(toks@),
            spec_print_run(t, i as int) == spec_print_run(t, k as int),
            v@.len() == k - i,
            forall|m: int| 0 <= m < v@.len() ==> spec_print(t[i + m], #[trigger] v@[m]),
        decreases toks@.len() - k,
    {
        match read_print(tag_view_at(toks, k)) {
            Some(x) => v.push(x),
            None => return (v, k),
        }
        k = k + 1;
    }
    (v, k)
}

/// The first position from `i` that holds `c`, or the end.
pub open spec fn spec_find_char(v: Seq<char>, c: char, i: int) -> int
    decreases v.len() - i,
{
    if 0 <= i < v.len() && v[i] != c {
        spec_find_char(v, c, i + 1)
    } else {
        i
    }
}

/// A constructor's source line `file:line`: the first two pieces between colons, read as
/// decimal numbers.
pub open spec fn spec_line(v: Seq<char>) -> Option<(usize, usize)> {
    let c = spec_find_char(v, ':', 0);
    if 0 <= c < v.len() {
        let rest = v.subrange(c + 1, v.len() as int);
        let c2 = spec_find_char(rest, ':', 0);
        if 0 <= c2 <= rest.len() {
            match (spec_from_str_radix(v.subrange(0, c), 10), spec_from_str_radix(rest.subrange(0, c2), 10)) {
                (Some(a), Some(b)) => Some((a as usize, b as usize)),
                _ => None,
            }
        } else {
            None
        }
    } else {
        None
    }
}

fn find_char(v: &Vec<char>, c: char, i: usize) -> (r: usize)
    requires
        i <= v@.len(),
    ensures
        r == spec_find_char(v@, c, i as int),
        i <= r <= v@.len(),
{
    let mut k: usize = i;
    while k < v.len() && v[k] != c
        invariant
            i <= k <= v@.len(),
            spec_find_char(v@, c, i as int) == spec_find_char(v@, c, k as int),
        decreases v@.len() - k,
    {
        k = k + 1;
    }
    k
}

fn read_line(s: &str) -> (r: Option<(usize, usize)>)
    ensures
        r == spec_line(s@),
{
    let v = crate::text::chars_of(s);
    let c = find_char(&v, ':', 0);
    if c >= v.len() {
        return None;
    }
    let first = crate::text::string_of_range(v.as_slice(), 0, c);
    let rest = crate::text::string_of_range(v.as_slice(), c + 1, v.len());
    let rv = crate::text::chars_of(rest.as_str());
    let c2 = find_char(&rv, ':', 0);
    let second = crate::text::string_of_range(rv.as_slice(), 0, c2);
    match (try_u64dec(first.as_str()), try_u64dec(second.as_str())) {
        (Some(a), Some(b)) => Some((a as usize, b as usize)),
        _ => None,
    }
}

/// A constructor's line attribute read as `file:line`.
pub open spec fn a_line(tv: TagV, k: int) -> Option<(usize, usize)> {
    match attr_val(tv, k) {
        Some(v) => spec_line(v),
        None => None,
    }
}

/// Whether the opening tag of a constructor holds its parent, first, length and line.
pub open spec fn spec_ctor_head_ok(tv: TagV) -> bool {
    tag_is(tv, TagKind::Open, "constructor"@) && a_u32hex(tv, 0) is Some && a_i32dec(tv, 1) is Some
        && a_u32dec(tv, 2) is Some && a_line(tv, 3) is Some
}

/// Where the parts of the constructor whose opening tag is at `i` end: its operands, its
/// display pieces, its context changes, and its template.
pub open spec fn spec_ctor_parts(t: Seq<TagV>, i: int) -> (int, int, int, int) {
    let p1 = spec_oper_run(t, i + 1);
    let p2 = spec_print_run(t, p1);
    let p3 = spec_context_ops(t, p2).1;
    let p4 = match spec_construct_tpl_end(t, p3) {
        Some(j) => j,
        None => p3,
    };
    (p1, p2, p3, p4)
}

/// Where the constructor that starts at `i` ends: `<constructor`, its operands, display
/// pieces, context changes and template, each where it has any, then `</constructor>`.
pub open spec fn spec_ctor_end(t: Seq<TagV>, i: int) -> Option<int> {
    if 0 <= i < t.len() && spec_ctor_head_ok(t[i]) {
        let p4 = spec_ctor_parts(t, i).3;
        if 0 <= p4 < t.len() && tag_is(t[p4], TagKind::Close, "constructor"@) {
            Some(p4 + 1)
        } else {
            None
        }
    } else {
        None
    }
}

/// The constructor written from `i`. Without display pieces it has none at all (`None`).
pub open spec fn spec_ctor(t: Seq<TagV>, i: int, c: Constructor) -> bool {
    &&& spec_ctor_end(t, i) is Some
    &&& a_u32hex(t[i], 0) == Some(c._parent)
    &&& a_i32dec(t[i], 1) == Some(c._first)
    &&& a_u32dec(t[i], 2) == Some(c.length)
    &&& a_line(t[i], 3) == Some(c.line)
    &&& {
        let (p1, p2, p3, p4) = spec_ctor_parts(t, i);
        &&& c.operands@.len() == p1 - (i + 1)
        &&& (forall|k: int| 0 <= k < c.operands@.len() ==> spec_oper(t[i + 1 + k]) == Some(#[trigger] c.operands@[k]))
        &&& if p2 > p1 {
            c.print_commands is Some && c.print_commands->0@.len() == p2 - p1 && (forall|k: int|
                0 <= k < p2 - p1 ==> spec_print(t[p1 + k], #[trigger] c.print_commands->0@[k]))
        } else {
            c.print_commands is None
        }
        &&& {
            let ss = spec_context_ops(t, p2).0;
            &&& c.context_ops@.len() == ss.len()
            &&& forall|k: int| 0 <= k < ss.len() ==> spec_context_op(t, ss[k], #[trigger] c.context_ops@[k])
        }
        &&& if spec_construct_tpl_end(t, p3) is Some {
            c.template is Some && spec_construct_tpl(t, p3, c.template->0)
        } else {
            c.template is None
        }
    }
}

/// Reads the constructor that starts at tag `i`, and where it ends.
pub fn read_ctor(toks: &Vec<XmlTag>, i: usize) -> (r: Option<(Constructor, usize)>)
    ensures
        match spec_ctor_end(tags_view(toks@), i as int) {
            Some(j) => r is Some && r.unwrap().1 == j && i < j <= toks@.len() && spec_ctor(
                tags_view(toks@),
                i as int,
                r.unwrap().0,
            ),
            None => r is None,
        },
{
    let ghost t = tags_view(toks@);
    if i >= toks.len() {
        return None;
    }
    let ti = tag_view_at(toks, i);
    if !is_tag(ti, TagKind::Open, "constructor") {
        return None;
    }
    let (parent, first, length) = match (attr_u32hex(ti, 0), attr_i32dec(ti, 1), attr_u32dec(ti, 2)) {
        (Some(a), Some(b), Some(c)) => (a, b, c),
        _ => return None,
    };
    let line = match attr_str(ti, 3) {
        Some(v) => match read_line(v) {
            Some(l) => l,
            None => return None,
        },
        None => return None,
    };
    let (operands, p1) = read_opers(toks, i + 1);
    let (prints, p2) = read_prints(toks, p1);
    let (context_ops, p3) = read_context_ops(toks, p2);
    let (template, p4) = match read_construct_tpl(toks, p3) {
        Some((c, j)) => (Some(c), j),
        None => (None, p3),
    };
    if p4 < toks.len() && is_tag(tag_view_at(toks, p4), TagKind::Close, "constructor") {
        let print_commands = if p2 > p1 {
            Some(prints)
        } else {
            None
        };
        let c = Constructor {
            _parent: parent,
            _first: first,
            length,
            operands,
            print_commands,
            context_ops,
            template,
            line,
        };
        assert forall|k: int| 0 <= k < c.operands@.len() implies spec_oper(t[i + 1 + k]) == Some(#[trigger] c.operands@[k]) by {
            assert(i + 1 + k == (i + 1) as int + k);
        }
        Some((c, p4 + 1))
    } else {
        None
    }
}

// ---------------------------------------------------------------------------------------
// Decision trees

/// Where the run of mask words from `i` ends.
pub open spec fn spec_mask_run(t: Seq<TagV>, i: int) -> int
    decreases t.len() - i,
{
    if 0 <= i < t.len() && spec_mask_word(t[i]) is Some {
        spec_mask_run(t, i + 1)
    } else {
        i
    }
}

/// Where the pattern block that starts at `i` ends: `<pat_block` with offset and
/// nonzero count, its mask words, `</pat_block>`.
pub open spec fn spec_pat_block_end(t: Seq<TagV>, i: int) -> Option<int> {
    if 0 <= i < t.len() && tag_is(t[i], TagKind::Open, "pat_block"@) && a_u32dec(t[i], 0) is Some
        && a_u32dec(t[i], 1) is Some {
        let e = spec_mask_run(t, i + 1);
        if 0 <= e < t.len() && tag_is(t[e], TagKind::Close, "pat_block"@) {
            Some(e + 1)
        } else {
            None
        }
    } else {
        None
    }
}

/// The pattern block written from `i`.
pub open spec fn spec_pat_block(t: Seq<TagV>, i: int, b: PatternBlock) -> bool {
    &&& spec_pat_block_end(t, i) is Some
    &&& a_u32dec(t[i], 0) == Some(b.offset)
    &&& a_u32dec(t[i], 1) == Some(b.nonzero)
    &&& b.masks@.len() == spec_mask_run(t, i + 1) - (i + 1)
    &&& forall|k: int| 0 <= k < b.masks@.len() ==> spec_mask_word(t[i + 1 + k]) == Some(#[trigger] b.masks@[k])
}

fn read_pat_block(toks: &Vec<XmlTag>, i: usize) -> (r: Option<(PatternBlock, usize)>)
    ensures
        match spec_pat_block_end(tags_view(toks@), i as int) {
            Some(j) => r is Some && r.unwrap().1 == j && i < j <= toks@.len() && spec_pat_block(
                tags_view(toks@),
                i as int,
                r.unwrap().0,
            ),
            None => r is None,
        },
{
    let ghost t = tags_view(toks@);
    if i >= toks.len() {
        return None;
    }
    let ti = tag_view_at(toks, i);
    if !is_tag(ti, TagKind::Open, "pat_block") {
        return None;
    }
    let (offset, nonzero) = match (attr_u32dec(ti, 0), attr_u32dec(ti, 1)) {
        (Some(a), Some(b)) => (a, b),
        _ => return None,
    };
    let mut masks: Vec<MaskWord> = Vec::new();
    let mut k: usize = i + 1;
    while k < toks.len()
        invariant
            i + 1 <= k <= toks@.len(),
            t == tags_view(toks@),
            spec_mask_run(t, i + 1) == spec_mask_run(t, k as int),
            masks@.len() == k - (i + 1),
            forall|m: int| 0 <= m < masks@.len() ==> spec_mask_word(t[i + 1 + m]) == Some(#[trigger] masks@[m]),
        ensures
            i + 1 <= k <= toks@.len(),
            spec_mask_run(t, i + 1) == k,
            masks@.len() == k - (i + 1),
            forall|m: int| 0 <= m < masks@.len() ==> spec_mask_word(t[i + 1 + m]) == Some(#[trigger] masks@[m]),
        decreases toks@.len() - k,
    {
        match read_mask_word(tag_view_at(toks, k)) {
            Some(w) => masks.push(w),
            None => break,
        }
        k = k + 1;
    }
    if k < toks.len() && is_tag(tag_view_at(toks, k), TagKind::Close, "pat_block") {
        Some((PatternBlock { offset, nonzero, masks }, k + 1))
    } else {
        None
    }
}

/// Whether a tag opens a decision pattern of the given name, without attributes.
pub open spec fn is_bare_open(tv: TagV, name: Seq<char>) -> bool {
    tv.0 == TagKind::Open && tv.1 == name && tv.2.len() == 0
}

fn read_bare_open(t: &XmlTag, name: &str) -> (r: bool)
    ensures
        r == is_bare_open(t@, name@),
{
    t.kind == TagKind::Open && str_eq(t.name.as_str(), name) && t.attrs.len() == 0
}

/// Where the decision pattern that starts at `i` ends: `<context_pat>` or
/// `<instruct_pat>` around a pattern block, or `<combine_pat>` around two patterns.
pub open spec fn spec_dpat_end(t: Seq<TagV>, i: int) -> Option<int>
    decreases t.len() - i,
{
    if i < 0 || i >= t.len() {
        None
    } else if is_bare_open(t[i], "context_pat"@) || is_bare_open(t[i], "instruct_pat"@) {
        match spec_pat_block_end(t, i + 1) {
            Some(e) => if 0 <= e < t.len() && t[e].0 == TagKind::Close && t[e].1 == t[i].1 {
                Some(e + 1)
            } else {
                None
            },
            None => None,
        }
    } else if is_bare_open(t[i], "combine_pat"@) {
        match spec_dpat_end(t, i + 1) {
            Some(k) => if i < k <= t.len() {
                match spec_dpat_end(t, k) {
                    Some(m) => if k < m < t.len() && tag_is(t[m], TagKind::Close, "combine_pat"@) {
                        Some(m + 1)
                    } else {
                        None
                    },
                    None => None,
                }
            } else {
                None
            },
            None => None,
        }
    } else {
        None
    }
}

/// The decision pattern written from `i`.
pub open spec fn spec_dpat(t: Seq<TagV>, i: int, d: DecisionPattern) -> bool
    decreases d,
{
    &&& spec_dpat_end(t, i) is Some
    &&& if is_bare_open(t[i], "context_pat"@) {
        d matches DecisionPattern::Context(b) && spec_pat_block(t, i + 1, b)
    } else if is_bare_open(t[i], "instruct_pat"@) {
        d matches DecisionPattern::Instruction(b) && spec_pat_block(t, i + 1, b)
    } else {
        match d {
            DecisionPattern::Combine((a, b)) => spec_dpat(t, i + 1, *a) && spec_dpat(
                t,
                spec_dpat_end(t, i + 1)->0,
                *b,
            ),
            _ => false,
        }
    }
}

fn read_dpat(toks: &Vec<XmlTag>, i: usize) -> (r: Option<(DecisionPattern, usize)>)
    ensures
        match spec_dpat_end(tags_view(toks@), i as int) {
            Some(j) => r is Some && r.unwrap().1 == j && i < j <= toks@.len() && spec_dpat(
                tags_view(toks@),
                i as int,
                r.unwrap().0,
            ),
            None => r is None,
        },
    decreases toks@.len() - i,
{
    let ghost t = tags_view(toks@);
    if i >= toks.len() {
        return None;
    }
    let ti = tag_view_at(toks, i);
    let is_ctx = read_bare_open(ti, "context_pat");
    if is_ctx || read_bare_open(ti, "instruct_pat") {
        let (b, e) = match read_pat_block(toks, i + 1) {
            Some(p) => p,
            None => return None,
        };
        if e < toks.len() {
            assert(t[e as int] == toks@[e as int]@);
            if toks[e].kind == TagKind::Close && str_eq(toks[e].name.as_str(), ti.name.as_str()) {
                if is_ctx {
                    return Some((DecisionPattern::Context(b), e + 1));
                } else {
                    return Some((DecisionPattern::Instruction(b), e + 1));
                }
            }
        }
        return None;
    }
    if !read_bare_open(ti, "combine_pat") {
        return None;
    }
    let (a, k) = match read_dpat(toks, i + 1) {
        Some(p) => p,
        None => return None,
    };
    let (b, m) = match read_dpat(toks, k) {
        Some(p) => p,
        None => return None,
    };
    if m < toks.len() && is_tag(tag_view_at(toks, m), TagKind::Close, "combine_pat") {
        Some((DecisionPattern::Combine((Box::new(a), Box::new(b))), m + 1))
    } else {
        None
    }
}

/// Where the pair that starts at `i` ends: `<pair` with a constructor id, a decision
/// pattern, `</pair>`.
pub open spec fn spec_pair_end(t: Seq<TagV>, i: int) -> Option<int> {
    if 0 <= i < t.len() && tag_is(t[i], TagKind::Open, "pair"@) && a_u32dec(t[i], 0) is Some {
        match spec_dpat_end(t, i + 1) {
            Some(e) => if 0 <= e < t.len() && tag_is(t[e], TagKind::Close, "pair"@) {
                Some(e + 1)
            } else {
                None
            },
            None => None,
        }
    } else {
        None
    }
}

/// The pair written from `i`.
pub open spec fn spec_pair(t: Seq<TagV>, i: int, p: (u32, DecisionPattern)) -> bool {
    spec_pair_end(t, i) is Some && a_u32dec(t[i], 0) == Some(p.0) && spec_dpat(t, i + 1, p.1)
}

fn read_pair(toks: &Vec<XmlTag>, i: usize) -> (r: Option<((u32, DecisionPattern), usize)>)
    ensures
        match spec_pair_end(tags_view(toks@), i as int) {
            Some(j) => r is Some && r.unwrap().1 == j && i < j <= toks@.len() && spec_pair(
                tags_view(toks@),
                i as int,
                r.unwrap().0,
            ),
            None => r is None,
        },
{
    let ghost t = tags_view(toks@);
    if i >= toks.len() {
        return None;
    }
    let ti = tag_view_at(toks, i);
    if !is_tag(ti, TagKind::Open, "pair") {
        return None;
    }
    let id = match attr_u32dec(ti, 0) {
        Some(id) => id,
        None => return None,
    };
    let (d, e) = match read_dpat(toks, i + 1) {
        Some(p) => p,
        None => return None,
    };
    if e < toks.len() && is_tag(tag_view_at(toks, e), TagKind::Close, "pair") {
        Some(((id, d), e + 1))
    } else {
        None
    }
}

/// The pairs written one after another from `i`: where each starts, and where the run
/// ends.
pub open spec fn spec_pairs(t: Seq<TagV>, i: int) -> (Seq<int>, int)
    decreases t.len() - i,
{
    match spec_pair_end(t, i) {
        Some(j) => if i < j <= t.len() {
            let (ss, e) = spec_pairs(t, j);
            (seq![i] + ss, e)
        } else {
            (seq![], i)
        },
        None => (seq![], i),
    }
}

proof fn lemma_pairs_end(t: Seq<TagV>, i: int)
    requires
        0 <= i <= t.len(),
    ensures
        i <= spec_pairs(t, i).1 <= t.len(),
        spec_pairs(t, i).0.len() > 0 ==> i < spec_pairs(t, i).1,
    decreases t.len() - i,
{
    match spec_pair_end(t, i) {
        Some(j) => if i < j <= t.len() {
            lemma_pairs_end(t, j);
        },
        None => {},
    }
}

/// A leaf of pairs written from `i`.
pub open spec fn spec_leaf(t: Seq<TagV>, i: int, v: Seq<(u32, DecisionPattern)>) -> bool {
    let ss = spec_pairs(t, i).0;
    &&& v.len() == ss.len()
    &&& forall|k: int| 0 <= k < ss.len() ==> spec_pair(t, ss[k], #[trigger] v[k])
}

fn read_pairs(toks: &Vec<XmlTag>, i: usize) -> (r: (Vec<(u32, DecisionPattern)>, usize))
    requires
        i <= toks@.len(),
    ensures
        r.1 == spec_pairs(tags_view(toks@), i as int).1,
        i <= r.1 <= toks@.len(),
        spec_leaf(tags_view(toks@), i as int, r.0@),
{
    let ghost t = tags_view(toks@);
    let mut v: Vec<(u32, DecisionPattern)> = Vec::new();
    let ghost mut ss: Seq<int> = seq![];
    let mut k: usize = i;
    loop
        invariant
            i <= k <= toks@.len(),
            t == tags_view(toks@),
            spec_pairs(t, i as int) == (ss + spec_pairs(t, k as int).0, spec_pairs(t, k as int).1),
            v@.len() == ss.len(),
            forall|m: int| 0 <= m < ss.len() ==> spec_pair(t, ss[m], #[trigger] v@[m]),
        decreases toks@.len() - k,
    {
        match read_pair(toks, k) {
            Some((p, j)) => {
                proof {
                    let (rest, e) = spec_pairs(t, j as int);
                    assert(spec_pairs(t, k as int) == (seq![k as int] + rest, e));
                    assert(ss + (seq![k as int] + rest) =~= ss.push(k as int) + rest);
                    ss = ss.push(k as int);
                }
                v.push(p);
                k = j;
            },
            None => {
                proof {
                    assert(ss + seq![] =~= ss);
                }
                return (v, k);
            },
        }
    }
}

/// The children of a decision node written from `i`: each is a run of pairs (a leaf) or
/// a decision node. Where each starts, and where they end.
pub open spec fn spec_bodies(t: Seq<TagV>, i: int) -> (Seq<int>, int)
    decreases t.len() - i, 1int,
{
    if i < 0 || i > t.len() {
        (seq![], i)
    } else if spec_pairs(t, i).0.len() > 0 {
        let e = spec_pairs(t, i).1;
        if i < e <= t.len() {
            let (bs, f) = spec_bodies(t, e);
            (seq![i] + bs, f)
        } else {
            (seq![], i)
        }
    } else {
        match spec_decision_end(t, i) {
            Some(j) => if i < j <= t.len() {
                let (bs, f) = spec_bodies(t, j);
                (seq![i] + bs, f)
            } else {
                (seq![], i)
            },
            None => (seq![], i),
        }
    }
}

/// Whether the opening tag of a decision node holds whether it reads the context, the
/// start bit and the size.
pub open spec fn spec_decision_head_ok(tv: TagV) -> bool {
    tag_is(tv, TagKind::Open, "decision"@) && a_bool(tv, 1) is Some && a_u32dec(tv, 2) is Some
        && a_u32dec(tv, 3) is Some
}

/// Where the decision node that starts at `i` ends: `<decision`, its children,
/// `</decision>`.
pub open spec fn spec_decision_end(t: Seq<TagV>, i: int) -> Option<int>
    decreases t.len() - i, 0int,
{
    if 0 <= i < t.len() && spec_decision_head_ok(t[i]) {
        let e = spec_bodies(t, i + 1).1;
        if 0 <= e < t.len() && tag_is(t[e], TagKind::Close, "decision"@) {
            Some(e + 1)
        } else {
            None
        }
    } else {
        None
    }
}

/// The decision node written from `i`.
pub open spec fn spec_decision(t: Seq<TagV>, i: int, d: DecisionTree) -> bool
    decreases d, 0int,
{
    &&& spec_decision_end(t, i) is Some
    &&& match d {
        DecisionTree::NonLeaf((is_context, start, size, children)) => {
            let bs = spec_bodies(t, i + 1).0;
            &&& a_bool(t[i], 1) == Some(is_context)
            &&& a_u32dec(t[i], 2) == Some(start)
            &&& a_u32dec(t[i], 3) == Some(size)
            &&& children@.len() == bs.len()
            &&& forall|k: int| 0 <= k < bs.len() ==> spec_body(t, bs[k], #[trigger] children@[k])
        },
        DecisionTree::Leaf(_) => false,
    }
}

/// A child of a decision node written from `i`: a leaf for a run of pairs, else a
/// decision node.
pub open spec fn spec_body(t: Seq<TagV>, i: int, d: DecisionTree) -> bool
    decreases d, 1int,
{
    if spec_pairs(t, i).0.len() > 0 {
        d matches DecisionTree::Leaf(v) && spec_leaf(t, i, v@)
    } else {
        spec_decision(t, i, d)
    }
}

proof fn lemma_bodies_end(t: Seq<TagV>, i: int)
    requires
        0 <= i <= t.len(),
    ensures
        i <= spec_bodies(t, i).1 <= t.len(),
    decreases t.len() - i,
{
    if spec_pairs(t, i).0.len() > 0 {
        let e = spec_pairs(t, i).1;
        if i < e <= t.len() {
            lemma_bodies_end(t, e);
        }
    } else {
        match spec_decision_end(t, i) {
            Some(j) => if i < j <= t.len() {
                lemma_bodies_end(t, j);
            },
            None => {},
        }
    }
}

fn read_bodies(toks: &Vec<XmlTag>, i: usize) -> (r: (Vec<DecisionTree>, usize))
    requires
        i <= toks@.len(),
    ensures
        r.1 == spec_bodies(tags_view(toks@), i as int).1,
        i <= r.1 <= toks@.len(),
        r.0@.len() == spec_bodies(tags_view(toks@), i as int).0.len(),
        forall|k: int| 0 <= k < r.0@.len() ==> spec_body(tags_view(toks@), spec_bodies(tags_view(toks@), i as int).0[k], #[trigger] r.0@[k]),
    decreases toks@.len() - i, 1int,
{
    let ghost t = tags_view(toks@);
    let mut v: Vec<DecisionTree> = Vec::new();
    let ghost mut bs: Seq<int> = seq![];
    let mut k: usize = i;
    loop
        invariant
            i <= k <= toks@.len(),
            t == tags_view(toks@),
            spec_bodies(t, i as int) == (bs + spec_bodies(t, k as int).0, spec_bodies(t, k as int).1),
            v@.len() == bs.len(),
            forall|m: int| 0 <= m < bs.len() ==> spec_body(t, bs[m], #[trigger] v@[m]),
        decreases toks@.len() - k,
    {
        let (pairs, e) = read_pairs(toks, k);
        proof {
            lemma_pairs_end(t, k as int);
        }
        let next = if pairs.len() > 0 {
            Some((DecisionTree::Leaf(pairs), e))
        } else {
            match read_decision(toks, k) {
                Some((d, j)) => Some((d, j)),
                None => None,
            }
        };
        match next {
            Some((d, j)) => {
                proof {
                    let (rest, f) = spec_bodies(t, j as int);
                    assert(spec_bodies(t, k as int) == (seq![k as int] + rest, f));
                    assert(bs + (seq![k as int] + rest) =~= bs.push(k as int) + rest);
                    bs = bs.push(k as int);
                }
                v.push(d);
                k = j;
            },
            None => {
                proof {
                    assert(bs + seq![] =~= bs);
                }
                return (v, k);
            },
        }
    }
}

/// Reads the decision node that starts at tag `i`, and where it ends.
pub fn read_decision(toks: &Vec<XmlTag>, i: usize) -> (r: Option<(DecisionTree, usize)>)
    ensures
        match spec_decision_end(tags_view(toks@), i as int) {
            Some(j) => r is Some && r.unwrap().1 == j && i < j <= toks@.len() && spec_decision(
                tags_view(toks@),
                i as int,
                r.unwrap().0,
            ),
            None => r is None,
        },
    decreases toks@.len() - i, 0int,
{
    let ghost t = tags_view(toks@);
    if i >= toks.len() {
        return None;
    }
    let ti = tag_view_at(toks, i);
    if !is_tag(ti, TagKind::Open, "decision") {
        return None;
    }
    let (is_context, start, size) = match (attr_bool(ti, 1), attr_u32dec(ti, 2), attr_u32dec(ti, 3)) {
        (Some(a), Some(b), Some(c)) => (a, b, c),
        _ => return None,
    };
    let (children, e) = read_bodies(toks, i + 1);
    if e < toks.len() && is_tag(tag_view_at(toks, e), TagKind::Close, "decision") {
        Some((DecisionTree::NonLeaf((is_context, start, size, children)), e + 1))
    } else {
        None
    }
}

// ---------------------------------------------------------------------------------------
// Symbols

/// Whether a tag holds a symbol's name, id and scope as its first three attributes.
pub open spec fn spec_head3_ok(tv: TagV) -> bool {
    attr_val(tv, 0) is Some && a_u32hex(tv, 1) is Some && a_u32hex(tv, 2) is Some
}

/// Where the run of tags from `i` that are each a constructor ends, and where each starts.
pub open spec fn spec_ctors(t: Seq<TagV>, i: int) -> (Seq<int>, int)
    decreases t.len() - i,
{
    match spec_ctor_end(t, i) {
        Some(j) => if i < j <= t.len() {
            let (ss, e) = spec_ctors(t, j);
            (seq![i] + ss, e)
        } else {
            (seq![], i)
        },
        None => (seq![], i),
    }
}

fn read_ctors(toks: &Vec<XmlTag>, i: usize) -> (r: (Vec<Constructor>, usize))
    requires
        i <= toks@.len(),
    ensures
        ({
            let (ss, e) = spec_ctors(tags_view(toks@), i as int);
            &&& r.1 == e
            &&& i <= e <= toks@.len()
            &&& r.0@.len() == ss.len()
            &&& forall|k: int| 0 <= k < ss.len() ==> spec_ctor(tags_view(toks@), ss[k], #[trigger] r.0@[k])
        }),
{
    let ghost t = tags_view(toks@);
    let mut v: Vec<Constructor> = Vec::new();
    let ghost mut ss: Seq<int> = seq![];
    let mut k: usize = i;
    loop
        invariant
            i <= k <= toks@.len(),
            t == tags_view(toks@),
            spec_ctors(t, i as int) == (ss + spec_ctors(t, k as int).0, spec_ctors(t, k as int).1),
            v@.len() == ss.len(),
            forall|m: int| 0 <= m < ss.len() ==> spec_ctor(t, ss[m], #[trigger] v@[m]),
        decreases toks@.len() - k,
    {
        match read_ctor(toks, k) {
            Some((c, j)) => {
                proof {
                    let (rest, e) = spec_ctors(t, j as int);
                    assert(spec_ctors(t, k as int) == (seq![k as int] + rest, e));
                    assert(ss + (seq![k as int] + rest) =~= ss.push(k as int) + rest);
                    ss = ss.push(k as int);
                }
                v.push(c);
                k = j;
            },
            None => {
                proof {
                    assert(ss + seq![] =~= ss);
                }
                return (v, k);
            },
        }
    }
}

/// Where the subtable that starts at `i` ends: `<subtable_sym` with name, id and scope,
/// one constructor or more, the decision tree, `</subtable_sym>`.
pub open spec fn spec_subtable_end(t: Seq<TagV>, i: int) -> Option<int> {
    if 0 <= i < t.len() && tag_is(t[i], TagKind::Open, "subtable_sym"@) && spec_head3_ok(t[i]) {
        let (cs, e) = spec_ctors(t, i + 1);
        if cs.len() > 0 {
            match spec_decision_end(t, e) {
                Some(f) => if 0 <= f < t.len() && tag_is(t[f], TagKind::Close, "subtable_sym"@) {
                    Some(f + 1)
                } else {
                    None
                },
                None => None,
            }
        } else {
            None
        }
    } else {
        None
    }
}

/// The subtable written from `i`.
pub open spec fn spec_subtable(t: Seq<TagV>, i: int, st: Subtable) -> bool {
    let (cs, e) = spec_ctors(t, i + 1);
    &&& attr_val(t[i], 0) == Some(st.name@)
    &&& a_u32hex(t[i], 2) == Some(st.scope)
    &&& st.constructors@.len() == cs.len()
    &&& (forall|k: int| 0 <= k < cs.len() ==> spec_ctor(t, cs[k], #[trigger] st.constructors@[k]))
    &&& spec_decision(t, e, st.decision_tree)
}

fn read_subtable(toks: &Vec<XmlTag>, i: usize) -> (r: Option<(Subtable, usize)>)
    ensures
        match spec_subtable_end(tags_view(toks@), i as int) {
            Some(j) => r is Some && r.unwrap().1 == j && i < j <= toks@.len() && spec_subtable(
                tags_view(toks@),
                i as int,
                r.unwrap().0,
            ),
            None => r is None,
        },
{
    let ghost t = tags_view(toks@);
    if i >= toks.len() {
        return None;
    }
    let ti = tag_view_at(toks, i);
    if !is_tag(ti, TagKind::Open, "subtable_sym") {
        return None;
    }
    let (name, _id, scope) = match (attr_string(ti, 0), attr_u32hex(ti, 1), attr_u32hex(ti, 2)) {
        (Some(a), Some(b), Some(c)) => (a, b, c),
        _ => return None,
    };
    let (constructors, e) = read_ctors(toks, i + 1);
    if constructors.len() == 0 {
        return None;
    }
    let (decision_tree, f) = match read_decision(toks, e) {
        Some(p) => p,
        None => return None,
    };
    if f < toks.len() && is_tag(tag_view_at(toks, f), TagKind::Close, "subtable_sym") {
        Some((Subtable { name, scope, constructors, decision_tree }, f + 1))
    } else {
        None
    }
}

/// Whether a varnode symbol's opening tag holds name, id, scope, space, offset and size.
pub open spec fn spec_varnode_sym_ok(tv: TagV) -> bool {
    &&& tag_is(tv, TagKind::Open, "varnode_sym"@)
    &&& spec_head3_ok(tv)
    &&& match attr_val(tv, 3) {
        Some(v) => spec_space_of_name(v) is Some,
        None => false,
    }
    &&& a_u64hex(tv, 4) is Some
    &&& a_u64dec(tv, 5) is Some
}

/// The varnode symbol whose opening tag is `tv`.
pub open spec fn spec_varnode_sym(tv: TagV, v: VarnodeSym) -> bool {
    &&& spec_varnode_sym_ok(tv)
    &&& attr_val(tv, 0) == Some(v.name@)
    &&& a_u32hex(tv, 2) == Some(v.scope)
    &&& spec_space_of_name(attr_val(tv, 3)->0) == Some(v.space)
    &&& a_u64hex(tv, 4) == Some(v.offset)
    &&& a_u64dec(tv, 5) == Some(v.size)
}

fn read_varnode_sym(t: &XmlTag) -> (r: Option<VarnodeSym>)
    ensures
        r is Some == spec_varnode_sym_ok(t@),
        r is Some ==> spec_varnode_sym(t@, r->0),
{
    if !is_tag(t, TagKind::Open, "varnode_sym") {
        return None;
    }
    let (name, _id, scope) = match (attr_string(t, 0), attr_u32hex(t, 1), attr_u32hex(t, 2)) {
        (Some(a), Some(b), Some(c)) => (a, b, c),
        _ => return None,
    };
    let space = match attr_str(t, 3) {
        Some(v) => match AddressSpace::from_name(v) {
            Some(sp) => sp,
            None => return None,
        },
        None => return None,
    };
    match (attr_u64hex(t, 4), attr_u64dec(t, 5)) {
        (Some(offset), Some(size)) => Some(VarnodeSym { name, scope, space, offset, size }),
        _ => None,
    }
}

/// Where the run of value-map entries from `i` ends.
pub open spec fn spec_valuetab_run(t: Seq<TagV>, i: int) -> int
    decreases t.len() - i,
{
    if 0 <= i < t.len() && spec_valuetab(t[i]) is Some {
        spec_valuetab_run(t, i + 1)
    } else {
        i
    }
}

/// Where the run of varnode-list entries from `i` ends.
pub open spec fn spec_var_run(t: Seq<TagV>, i: int) -> int
    decreases t.len() - i,
{
    if 0 <= i < t.len() && spec_var(t[i]) is Some {
        spec_var_run(t, i + 1)
    } else {
        i
    }
}

/// Where the run of name-table entries from `i` ends.
pub open spec fn spec_nametab_run(t: Seq<TagV>, i: int) -> int
    decreases t.len() - i,
{
    if 0 <= i < t.len() && spec_nametab_ok(t[i]) {
        spec_nametab_run(t, i + 1)
    } else {
        i
    }
}

fn read_valuetabs(toks: &Vec<XmlTag>, i: usize) -> (r: (Vec<u64>, usize))
    requires
        i <= toks@.len(),
    ensures
        r.1 == spec_valuetab_run(tags_view(toks@), i as int),
        i <= r.1 <= toks@.len(),
        r.0@.len() == r.1 - i,
        forall|k: int| 0 <= k < r.0@.len() ==> spec_valuetab(tags_view(toks@)[i + k]) == Some(#[trigger] r.0@[k]),
{
    let ghost t = tags_view(toks@);
    let mut v: Vec<u64> = Vec::new();
    let mut k: usize = i;
    while k < toks.len()
        invariant
            i <= k <= toks@.len(),
            t == tags_view(toks@),
            spec_valuetab_run(t, i as int) == spec_valuetab_run(t, k as int),
            v@.len() == k - i,
            forall|m: int| 0 <= m < v@.len() ==> spec_valuetab(t[i + m]) == Some(#[trigger] v@[m]),
        decreases toks@.len() - k,
    {
        match read_valuetab(tag_view_at(toks, k)) {
            Some(x) => v.push(x),
            None => return (v, k),
        }
        k = k + 1;
    }
    (v, k)
}

fn read_vars(toks: &Vec<XmlTag>, i: usize) -> (r: (Vec<Option<u32>>, usize))
    requires
        i <= toks@.len(),
    ensures
        r.1 == spec_var_run(tags_view(toks@), i as int),
        i <= r.1 <= toks@.len(),
        r.0@.len() == r.1 - i,
        forall|k: int| 0 <= k < r.0@.len() ==> spec_var(tags_view(toks@)[i + k]) == Some(#[trigger] r.0@[k]),
{
    let ghost t = tags_view(toks@);
    let mut v: Vec<Option<u32>> = Vec::new();
    let mut k: usize = i;
    while k < toks.len()
        invariant
            i <= k <= toks@.len(),
            t == tags_view(toks@),
            spec_var_run(t, i as int) == spec_var_run(t, k as int),
            v@.len() == k - i,
            forall|m: int| 0 <= m < v@.len() ==> spec_var(t[i + m]) == Some(#[trigger] v@[m]),
        decreases toks@.len() - k,
    {
        match read_var(tag_view_at(toks, k)) {
            Some(x) => v.push(x),
            None => return (v, k),
        }
        k = k + 1;
    }
    (v, k)
}

fn read_nametabs(toks: &Vec<XmlTag>, i: usize) -> (r: (Vec<Option<String>>, usize))
    requires
        i <= toks@.len(),
    ensures
        r.1 == spec_nametab_run(tags_view(toks@), i as int),
        i <= r.1 <= toks@.len(),
        r.0@.len() == r.1 - i,
        forall|k: int| 0 <= k < r.0@.len() ==> spec_nametab(tags_view(toks@)[i + k], #[trigger] r.0@[k]),
{
    let ghost t = tags_view(toks@);
    let mut v: Vec<Option<String>> = Vec::new();
    let mut k: usize = i;
    while k < toks.len()
        invariant
            i <= k <= toks@.len(),
            t == tags_view(toks@),
            spec_nametab_run(t, i as int) == spec_nametab_run(t, k as int),
            v@.len() == k - i,
            forall|m: int| 0 <= m < v@.len() ==> spec_nametab(t[i + m], #[trigger] v@[m]),
        decreases toks@.len() - k,
    {
        match read_nametab(tag_view_at(toks, k)) {
            Some(x) => v.push(x),
            None => return (v, k),
        }
        k = k + 1;
    }
    (v, k)
}

/// The end of a symbol that is an opening tag with name, id and scope, a field, a run
/// of entries ending at `e`, and the closing tag `name`.
pub open spec fn spec_listed_end(t: Seq<TagV>, i: int, name: Seq<char>, e: int) -> Option<int> {
    if 0 <= e < t.len() && tag_is(t[e], TagKind::Close, name) {
        Some(e + 1)
    } else {
        None
    }
}

/// Whether `i` opens a symbol named `name` with name, id and scope, followed by a field.
pub open spec fn spec_listed_head_ok(t: Seq<TagV>, i: int, name: Seq<char>) -> bool {
    0 <= i && i + 1 < t.len() && tag_is(t[i], TagKind::Open, name) && spec_head3_ok(t[i]) && spec_field(
        t[i + 1],
    ) is Some
}

/// Where the varnode symbol that starts at `i` ends: its opening tag, `</varnode_sym>`.
pub open spec fn spec_varnode_sym_end(t: Seq<TagV>, i: int) -> Option<int> {
    if 0 <= i && i + 1 < t.len() && spec_varnode_sym_ok(t[i]) && tag_is(t[i + 1], TagKind::Close, "varnode_sym"@) {
        Some(i + 2)
    } else {
        None
    }
}

/// Where the value map that starts at `i` ends: `<valuemap_sym`, a field, its values,
/// `</valuemap_sym>`.
pub open spec fn spec_valuemap_end(t: Seq<TagV>, i: int) -> Option<int> {
    if spec_listed_head_ok(t, i, "valuemap_sym"@) {
        spec_listed_end(t, i, "valuemap_sym"@, spec_valuetab_run(t, i + 2))
    } else {
        None
    }
}

/// Where the varnode list that starts at `i` ends: `<varlist_sym`, a field, its entries,
/// `</varlist_sym>`.
pub open spec fn spec_varlist_end(t: Seq<TagV>, i: int) -> Option<int> {
    if spec_listed_head_ok(t, i, "varlist_sym"@) {
        spec_listed_end(t, i, "varlist_sym"@, spec_var_run(t, i + 2))
    } else {
        None
    }
}

/// Where the name table that starts at `i` ends: `<name_sym`, a field, its names,
/// `</name_sym>`.
pub open spec fn spec_name_sym_end(t: Seq<TagV>, i: int) -> Option<int> {
    if spec_listed_head_ok(t, i, "name_sym"@) {
        spec_listed_end(t, i, "name_sym"@, spec_nametab_run(t, i + 2))
    } else {
        None
    }
}

/// Where the value symbol that starts at `i` ends: `<value_sym`, a token field,
/// `</value_sym>`.
pub open spec fn spec_value_sym_end(t: Seq<TagV>, i: int) -> Option<int> {
    if 0 <= i && i + 2 < t.len() && tag_is(t[i], TagKind::Open, "value_sym"@) && spec_head3_ok(t[i])
        && spec_token_field(t[i + 1]) is Some && tag_is(t[i + 2], TagKind::Close, "value_sym"@) {
        Some(i + 3)
    } else {
        None
    }
}

/// Where the context variable that starts at `i` ends: `<context_sym`, a context field,
/// `</context_sym>`.
pub open spec fn spec_context_sym_end(t: Seq<TagV>, i: int) -> Option<int> {
    if 0 <= i && i + 2 < t.len() && tag_is(t[i], TagKind::Open, "context_sym"@) && spec_context_sym_ok(t[i])
        && spec_context_field(t[i + 1]) is Some && tag_is(t[i + 2], TagKind::Close, "context_sym"@) {
        Some(i + 3)
    } else {
        None
    }
}

/// Where the symbol that starts at `i` ends, for the symbols of several tags:
/// subtables, varnodes, value maps, varnode lists, name tables, values, context
/// variables and operands.
pub open spec fn spec_big_symbol_end(t: Seq<TagV>, i: int) -> Option<int> {
    if i < 0 || i >= t.len() {
        None
    } else if tag_is(t[i], TagKind::Open, "subtable_sym"@) {
        spec_subtable_end(t, i)
    } else if tag_is(t[i], TagKind::Open, "varnode_sym"@) {
        spec_varnode_sym_end(t, i)
    } else if tag_is(t[i], TagKind::Open, "valuemap_sym"@) {
        spec_valuemap_end(t, i)
    } else if tag_is(t[i], TagKind::Open, "varlist_sym"@) {
        spec_varlist_end(t, i)
    } else if tag_is(t[i], TagKind::Open, "name_sym"@) {
        spec_name_sym_end(t, i)
    } else if tag_is(t[i], TagKind::Open, "value_sym"@) {
        spec_value_sym_end(t, i)
    } else if tag_is(t[i], TagKind::Open, "context_sym"@) {
        spec_context_sym_end(t, i)
    } else if tag_is(t[i], TagKind::Open, "operand_sym"@) {
        spec_operand_sym_end(t, i)
    } else {
        None
    }
}

/// Whether a context variable's opening tag holds name, id, scope, varnode, low and high
/// bits, and whether it flows.
pub open spec fn spec_context_sym_ok(tv: TagV) -> bool {
    spec_head3_ok(tv) && a_u32hex(tv, 3) is Some && a_u32dec(tv, 4) is Some && a_u32dec(tv, 5) is Some
        && a_bool(tv, 6) is Some
}

/// The value of the last attribute with the given name.
pub open spec fn spec_named(attrs: Seq<(Seq<char>, Seq<char>)>, name: Seq<char>) -> Option<Seq<char>>
    decreases attrs.len(),
{
    if attrs.len() == 0 {
        None
    } else if attrs.last().0 == name {
        Some(attrs.last().1)
    } else {
        spec_named(attrs.drop_last(), name)
    }
}

/// A named attribute read as a 32-bit hexadecimal number, zero where it is missing.
pub open spec fn n_u32hex_or0(tv: TagV, name: Seq<char>) -> Option<u32> {
    match spec_named(tv.2, name) {
        Some(v) => narrow32(spec_hex_text(v)),
        None => Some(0),
    }
}

/// A named attribute read as a decimal number, zero where it is missing.
pub open spec fn n_u64dec_or0(tv: TagV, name: Seq<char>) -> Option<u64> {
    match spec_named(tv.2, name) {
        Some(v) => spec_from_str_radix(v, 10),
        None => Some(0),
    }
}

/// A named attribute read as a signed decimal number, zero where it is missing.
pub open spec fn n_i64dec_or0(tv: TagV, name: Seq<char>) -> Option<i64> {
    match spec_named(tv.2, name) {
        Some(v) => match spec_signed_dec(v, 0x8000000000000000) {
            Some(x) => Some(x as i64),
            None => None,
        },
        None => Some(0),
    }
}

/// A named attribute read as a boolean, false where it is missing.
pub open spec fn n_bool_or_false(tv: TagV, name: Seq<char>) -> Option<bool> {
    match spec_named(tv.2, name) {
        Some(v) => spec_bool_text(v),
        None => Some(false),
    }
}

/// Whether an operand's opening tag holds, by name, its id, name and scope, and, where it
/// has them, a subsymbol, offset, base, minimum length, index and whether it is code.
pub open spec fn spec_operand_head_ok(tv: TagV) -> bool {
    &&& match spec_named(tv.2, "id"@) {
        Some(v) => narrow32(spec_hex_text(v)) is Some,
        None => false,
    }
    &&& spec_named(tv.2, "name"@) is Some
    &&& match spec_named(tv.2, "scope"@) {
        Some(v) => narrow32(spec_hex_text(v)) is Some,
        None => false,
    }
    &&& n_u32hex_or0(tv, "subsym"@) is Some
    &&& n_u64dec_or0(tv, "off"@) is Some
    &&& n_i64dec_or0(tv, "base"@) is Some
    &&& n_u64dec_or0(tv, "minlen"@) is Some
    &&& n_u64dec_or0(tv, "idx"@) is Some
    &&& n_bool_or_false(tv, "code"@) is Some
}

/// Where the operand that starts at `i` ends: `<operand_sym`, its operand expression,
/// its defining expression where it has one, `</operand_sym>`.
pub open spec fn spec_operand_sym_end(t: Seq<TagV>, i: int) -> Option<int> {
    if 0 <= i && i + 1 < t.len() && tag_is(t[i], TagKind::Open, "operand_sym"@) && spec_operand_head_ok(t[i])
        && spec_operand_exp(t[i + 1]) is Some {
        let k = match spec_expr_end(t, i + 2) {
            Some(k) => k,
            None => i + 2,
        };
        if 0 <= k < t.len() && tag_is(t[k], TagKind::Close, "operand_sym"@) {
            Some(k + 1)
        } else {
            None
        }
    } else {
        None
    }
}

/// The operand written from `i`.
pub open spec fn spec_operand(t: Seq<TagV>, i: int, o: Operand) -> bool {
    let tv = t[i];
    &&& spec_named(tv.2, "name"@) == Some(o.name@)
    &&& narrow32(spec_hex_text(spec_named(tv.2, "scope"@)->0)) == Some(o.scope)
    &&& n_u32hex_or0(tv, "subsym"@) == Some(o.subsym)
    &&& n_u64dec_or0(tv, "off"@) == Some(o.off)
    &&& n_i64dec_or0(tv, "base"@) == Some(o.base)
    &&& n_u64dec_or0(tv, "minlen"@) == Some(o.min_len)
    &&& n_u64dec_or0(tv, "idx"@) == Some(o.idx)
    &&& n_bool_or_false(tv, "code"@) == Some(o.is_code)
    &&& spec_operand_exp(t[i + 1]) == Some(o.operand_expr)
    &&& if spec_expr_end(t, i + 2) is Some {
        o.expr is Some && spec_expr(t, i + 2, o.expr->0)
    } else {
        o.expr is None
    }
}

/// The id an operand's tag holds by name.
pub open spec fn spec_operand_id(tv: TagV) -> Option<u32> {
    match spec_named(tv.2, "id"@) {
        Some(v) => narrow32(spec_hex_text(v)),
        None => None,
    }
}

/// The value map written from `i`.
pub open spec fn spec_valuemap(t: Seq<TagV>, i: int, m: Valuemap) -> bool {
    &&& attr_val(t[i], 0) == Some(m.name@)
    &&& a_u32hex(t[i], 2) == Some(m.scope)
    &&& spec_field(t[i + 1]) == Some(m.field)
    &&& m.vars@.len() == spec_valuetab_run(t, i + 2) - (i + 2)
    &&& forall|k: int| 0 <= k < m.vars@.len() ==> spec_valuetab(t[i + 2 + k]) == Some(#[trigger] m.vars@[k])
}

/// The varnode list written from `i`.
pub open spec fn spec_varlist(t: Seq<TagV>, i: int, m: Varlist) -> bool {
    &&& attr_val(t[i], 0) == Some(m.name@)
    &&& a_u32hex(t[i], 2) == Some(m.scope)
    &&& spec_field(t[i + 1]) == Some(m.field)
    &&& m.vars@.len() == spec_var_run(t, i + 2) - (i + 2)
    &&& forall|k: int| 0 <= k < m.vars@.len() ==> spec_var(t[i + 2 + k]) == Some(#[trigger] m.vars@[k])
}

/// The name table written from `i`.
pub open spec fn spec_name_table(t: Seq<TagV>, i: int, m: NameTable) -> bool {
    &&& attr_val(t[i], 0) == Some(m.name@)
    &&& a_u32hex(t[i], 2) == Some(m.scope)
    &&& spec_field(t[i + 1]) == Some(m.field)
    &&& m.names@.len() == spec_nametab_run(t, i + 2) - (i + 2)
    &&& forall|k: int| 0 <= k < m.names@.len() ==> spec_nametab(t[i + 2 + k], #[trigger] m.names@[k])
}

/// The value symbol written from `i`.
pub open spec fn spec_value_sym(t: Seq<TagV>, i: int, m: Value) -> bool {
    &&& attr_val(t[i], 0) == Some(m.name@)
    &&& a_u32hex(t[i], 2) == Some(m.scope)
    &&& spec_token_field(t[i + 1]) is Some
    &&& m.field == Field::Token(spec_token_field(t[i + 1])->0)
}

/// The context variable written from `i`.
pub open spec fn spec_context_sym(t: Seq<TagV>, i: int, c: Context) -> bool {
    let tv = t[i];
    &&& attr_val(tv, 0) == Some(c.name@)
    &&& a_u32hex(tv, 2) == Some(c.scope)
    &&& a_u32hex(tv, 3) == Some(c.varnode)
    &&& a_u32dec(tv, 4) == Some(c.low)
    &&& a_u32dec(tv, 5) == Some(c.high)
    &&& a_bool(tv, 6) == Some(c.flow)
    &&& spec_context_field(t[i + 1]) == Some(c.context_field)
}

/// The symbol of several tags written from `i`: its id (the second attribute, or the
/// attribute named `id` for an operand) and what it is.
pub open spec fn spec_big_symbol(t: Seq<TagV>, i: int, sym: Symbol) -> bool {
    let tv = t[i];
    &&& spec_big_symbol_end(t, i) is Some
    &&& if tag_is(tv, TagKind::Open, "subtable_sym"@) {
        a_u32hex(tv, 1) == Some(sym.id) && (sym.body matches SymbolBody::Subtable(st) && spec_subtable(t, i, st))
    } else if tag_is(tv, TagKind::Open, "varnode_sym"@) {
        a_u32hex(tv, 1) == Some(sym.id) && (sym.body matches SymbolBody::Varnode(v) && spec_varnode_sym(tv, v))
    } else if tag_is(tv, TagKind::Open, "valuemap_sym"@) {
        a_u32hex(tv, 1) == Some(sym.id) && (sym.body matches SymbolBody::Valuemap(m) && spec_valuemap(t, i, m))
    } else if tag_is(tv, TagKind::Open, "varlist_sym"@) {
        a_u32hex(tv, 1) == Some(sym.id) && (sym.body matches SymbolBody::Varlist(m) && spec_varlist(t, i, m))
    } else if tag_is(tv, TagKind::Open, "name_sym"@) {
        a_u32hex(tv, 1) == Some(sym.id) && (sym.body matches SymbolBody::Nametab(m) && spec_name_table(t, i, m))
    } else if tag_is(tv, TagKind::Open, "value_sym"@) {
        a_u32hex(tv, 1) == Some(sym.id) && (sym.body matches SymbolBody::Value(m) && spec_value_sym(t, i, m))
    } else if tag_is(tv, TagKind::Open, "context_sym"@) {
        a_u32hex(tv, 1) == Some(sym.id) && (sym.body matches SymbolBody::Context(c) && spec_context_sym(t, i, c))
    } else {
        spec_operand_id(tv) == Some(sym.id) && (sym.body matches SymbolBody::Operand(o) && spec_operand(t, i, o))
    }
}

fn named<'a>(t: &'a XmlTag, name: &str) -> (r: Option<&'a str>)
    ensures
        match spec_named(t@.2, name@) {
            Some(v) => r is Some && r->0@ == v,
            None => r is None,
        },
{
    let mut found: Option<&'a str> = None;
    let mut k: usize = 0;
    while k < t.attrs.len()
        invariant
            k <= t.attrs@.len(),
            match spec_named(t@.2.take(k as int), name@) {
                Some(v) => found is Some && found->0@ == v,
                None => found is None,
            },
        decreases t.attrs@.len() - k,
    {
        assert(t@.2.take(k + 1).drop_last() =~= t@.2.take(k as int));
        assert(t@.2[k as int] == (t.attrs@[k as int].0@, t.attrs@[k as int].1@));
        if str_eq(t.attrs[k].0.as_str(), name) {
            found = Some(t.attrs[k].1.as_str());
        }
        k = k + 1;
    }
    assert(t@.2.take(k as int) =~= t@.2);
    found
}

fn named_u32hex_or0(t: &XmlTag, name: &str) -> (r: Option<u32>)
    ensures
        r == n_u32hex_or0(t@, name@),
{
    match named(t, name) {
        Some(v) => match try_u64hex(v) {
            Some(x) => if x <= 0xffffffff {
                Some(x as u32)
            } else {
                None
            },
            None => None,
        },
        None => Some(0),
    }
}

fn named_u64dec_or0(t: &XmlTag, name: &str) -> (r: Option<u64>)
    ensures
        r == n_u64dec_or0(t@, name@),
{
    match named(t, name) {
        Some(v) => try_u64dec(v),
        None => Some(0),
    }
}

fn named_i64dec_or0(t: &XmlTag, name: &str) -> (r: Option<i64>)
    ensures
        r == n_i64dec_or0(t@, name@),
{
    match named(t, name) {
        Some(v) => try_signed_dec(v, 0x8000000000000000),
        None => Some(0),
    }
}

fn named_bool_or_false(t: &XmlTag, name: &str) -> (r: Option<bool>)
    ensures
        r == n_bool_or_false(t@, name@),
{
    match named(t, name) {
        Some(v) => bool_text(v),
        None => Some(false),
    }
}

fn read_operand_sym(toks: &Vec<XmlTag>, i: usize) -> (r: Option<(Symbol, usize)>)
    requires
        i < toks@.len(),
        tag_is(tags_view(toks@)[i as int], TagKind::Open, "operand_sym"@),
    ensures
        match spec_operand_sym_end(tags_view(toks@), i as int) {
            Some(j) => {
                &&& r is Some
                &&& r.unwrap().1 == j
                &&& i < j <= toks@.len()
                &&& spec_operand_id(tags_view(toks@)[i as int]) == Some(r.unwrap().0.id)
                &&& (r.unwrap().0.body matches SymbolBody::Operand(o) && spec_operand(tags_view(toks@), i as int, o))
            },
            None => r is None,
        },
{
    let ghost t = tags_view(toks@);
    let ti = tag_view_at(toks, i);
    let id = match named(ti, "id") {
        Some(v) => match try_u64hex(v) {
            Some(x) => if x <= 0xffffffff {
                x as u32
            } else {
                return None;
            },
            None => return None,
        },
        None => return None,
    };
    let name = match named(ti, "name") {
        Some(v) => v.to_owned(),
        None => return None,
    };
    let scope = match named(ti, "scope") {
        Some(v) => match try_u64hex(v) {
            Some(x) => if x <= 0xffffffff {
                x as u32
            } else {
                return None;
            },
            None => return None,
        },
        None => return None,
    };
    let (subsym, off, base, min_len, idx, is_code) = match (
        named_u32hex_or0(ti, "subsym"),
        named_u64dec_or0(ti, "off"),
        named_i64dec_or0(ti, "base"),
        named_u64dec_or0(ti, "minlen"),
        named_u64dec_or0(ti, "idx"),
        named_bool_or_false(ti, "code"),
    ) {
        (Some(a), Some(b), Some(c), Some(d), Some(e), Some(f)) => (a, b, c, d, e, f),
        _ => return None,
    };
    if toks.len() - i <= 1 {
        return None;
    }
    let operand_expr = match read_operand_exp(tag_view_at(toks, i + 1)) {
        Some(o) => o,
        None => return None,
    };
    let (expr, k) = match read_expr(toks, i + 2) {
        Some((e, k)) => (Some(e), k),
        None => (None, i + 2),
    };
    if k < toks.len() && is_tag(tag_view_at(toks, k), TagKind::Close, "operand_sym") {
        let o = Operand { name, scope, subsym, off, base, min_len, idx, is_code, operand_expr, expr };
        Some((Symbol { id, body: SymbolBody::Operand(o) }, k + 1))
    } else {
        None
    }
}

fn read_listed_head(toks: &Vec<XmlTag>, i: usize, name: &str) -> (r: Option<(String, u32, Field)>)
    ensures
        r is Some == spec_listed_head_ok(tags_view(toks@), i as int, name@),
        r is Some ==> attr_val(tags_view(toks@)[i as int], 0) == Some((r.unwrap().0)@) && a_u32hex(
            tags_view(toks@)[i as int],
            2,
        ) == Some(r.unwrap().1) && spec_field(tags_view(toks@)[i + 1]) == Some(r.unwrap().2),
{
    if i >= toks.len() || toks.len() - i <= 1 {
        return None;
    }
    let ti = tag_view_at(toks, i);
    if !is_tag(ti, TagKind::Open, name) {
        return None;
    }
    let (n, _id, scope) = match (attr_string(ti, 0), attr_u32hex(ti, 1), attr_u32hex(ti, 2)) {
        (Some(a), Some(b), Some(c)) => (a, b, c),
        _ => return None,
    };
    match read_field(tag_view_at(toks, i + 1)) {
        Some(f) => Some((n, scope, f)),
        None => None,
    }
}

fn read_close(toks: &Vec<XmlTag>, e: usize, name: &str) -> (r: bool)
    ensures
        r == (0 <= e < toks@.len() && tag_is(tags_view(toks@)[e as int], TagKind::Close, name@)),
{
    e < toks.len() && is_tag(tag_view_at(toks, e), TagKind::Close, name)
}

fn read_valuemap_sym(toks: &Vec<XmlTag>, i: usize) -> (r: Option<(Symbol, usize)>)
    ensures
        match spec_valuemap_end(tags_view(toks@), i as int) {
            Some(j) => r is Some && r.unwrap().1 == j && i < j <= toks@.len() && a_u32hex(tags_view(toks@)[i as int], 1)
                == Some(r.unwrap().0.id) && (r.unwrap().0.body matches SymbolBody::Valuemap(m) && spec_valuemap(tags_view(toks@), i as int, m)),
            None => r is None,
        },
{
    let ghost t = tags_view(toks@);
    if i >= toks.len() || toks.len() - i <= 1 {
        return None;
    }
    let (name, scope, field) = match read_listed_head(toks, i, "valuemap_sym") {
        Some(h) => h,
        None => return None,
    };
    let id = match attr_u32hex(tag_view_at(toks, i), 1) {
        Some(id) => id,
        None => return None,
    };
    let (vars, e) = read_valuetabs(toks, i + 2);
    if read_close(toks, e, "valuemap_sym") {
        let m = Valuemap { name, scope, field, vars };
        assert forall|k: int| 0 <= k < m.vars@.len() implies spec_valuetab(t[i + 2 + k]) == Some(#[trigger] m.vars@[k]) by {
            assert(i + 2 + k == (i + 2) as int + k);
        }
        Some((Symbol { id, body: SymbolBody::Valuemap(m) }, e + 1))
    } else {
        None
    }
}

fn read_varlist_sym(toks: &Vec<XmlTag>, i: usize) -> (r: Option<(Symbol, usize)>)
    ensures
        match spec_varlist_end(tags_view(toks@), i as int) {
            Some(j) => r is Some && r.unwrap().1 == j && i < j <= toks@.len() && a_u32hex(tags_view(toks@)[i as int], 1)
                == Some(r.unwrap().0.id) && (r.unwrap().0.body matches SymbolBody::Varlist(m) && spec_varlist(tags_view(toks@), i as int, m)),
            None => r is None,
        },
{
    let ghost t = tags_view(toks@);
    if i >= toks.len() || toks.len() - i <= 1 {
        return None;
    }
    let (name, scope, field) = match read_listed_head(toks, i, "varlist_sym") {
        Some(h) => h,
        None => return None,
    };
    let id = match attr_u32hex(tag_view_at(toks, i), 1) {
        Some(id) => id,
        None => return None,
    };
    let (vars, e) = read_vars(toks, i + 2);
    if read_close(toks, e, "varlist_sym") {
        let m = Varlist { name, scope, field, vars };
        assert forall|k: int| 0 <= k < m.vars@.len() implies spec_var(t[i + 2 + k]) == Some(#[trigger] m.vars@[k]) by {
            assert(i + 2 + k == (i + 2) as int + k);
        }
        Some((Symbol { id, body: SymbolBody::Varlist(m) }, e + 1))
    } else {
        None
    }
}

fn read_name_sym(toks: &Vec<XmlTag>, i: usize) -> (r: Option<(Symbol, usize)>)
    ensures
        match spec_name_sym_end(tags_view(toks@), i as int) {
            Some(j) => r is Some && r.unwrap().1 == j && i < j <= toks@.len() && a_u32hex(tags_view(toks@)[i as int], 1)
                == Some(r.unwrap().0.id) && (r.unwrap().0.body matches SymbolBody::Nametab(m) && spec_name_table(tags_view(toks@), i as int, m)),
            None => r is None,
        },
{
    let ghost t = tags_view(toks@);
    if i >= toks.len() || toks.len() - i <= 1 {
        return None;
    }
    let (name, scope, field) = match read_listed_head(toks, i, "name_sym") {
        Some(h) => h,
        None => return None,
    };
    let id = match attr_u32hex(tag_view_at(toks, i), 1) {
        Some(id) => id,
        None => return None,
    };
    let (names, e) = read_nametabs(toks, i + 2);
    if read_close(toks, e, "name_sym") {
        let m = NameTable { name, scope, field, names };
        assert forall|k: int| 0 <= k < m.names@.len() implies spec_nametab(t[i + 2 + k], #[trigger] m.names@[k]) by {
            assert(i + 2 + k == (i + 2) as int + k);
        }
        Some((Symbol { id, body: SymbolBody::Nametab(m) }, e + 1))
    } else {
        None
    }
}

fn read_varnode_symbol(toks: &Vec<XmlTag>, i: usize) -> (r: Option<(Symbol, usize)>)
    ensures
        match spec_varnode_sym_end(tags_view(toks@), i as int) {
            Some(j) => r is Some && r.unwrap().1 == j && i < j <= toks@.len() && a_u32hex(tags_view(toks@)[i as int], 1)
                == Some(r.unwrap().0.id) && (r.unwrap().0.body matches SymbolBody::Varnode(v) && spec_varnode_sym(tags_view(toks@)[i as int], v)),
            None => r is None,
        },
{
    if i >= toks.len() || toks.len() - i <= 1 {
        return None;
    }
    let ti = tag_view_at(toks, i);
    let v = match read_varnode_sym(ti) {
        Some(v) => v,
        None => return None,
    };
    let id = match attr_u32hex(ti, 1) {
        Some(id) => id,
        None => return None,
    };
    if read_close(toks, i + 1, "varnode_sym") {
        Some((Symbol { id, body: SymbolBody::Varnode(v) }, i + 2))
    } else {
        None
    }
}

fn read_value_sym(toks: &Vec<XmlTag>, i: usize) -> (r: Option<(Symbol, usize)>)
    ensures
        match spec_value_sym_end(tags_view(toks@), i as int) {
            Some(j) => r is Some && r.unwrap().1 == j && i < j <= toks@.len() && a_u32hex(tags_view(toks@)[i as int], 1)
                == Some(r.unwrap().0.id) && (r.unwrap().0.body matches SymbolBody::Value(m) && spec_value_sym(tags_view(toks@), i as int, m)),
            None => r is None,
        },
{
    if i >= toks.len() || toks.len() - i <= 2 {
        return None;
    }
    let ti = tag_view_at(toks, i);
    if !is_tag(ti, TagKind::Open, "value_sym") {
        return None;
    }
    let (name, id, scope) = match (attr_string(ti, 0), attr_u32hex(ti, 1), attr_u32hex(ti, 2)) {
        (Some(a), Some(b), Some(c)) => (a, b, c),
        _ => return None,
    };
    let f = match read_token_field(tag_view_at(toks, i + 1)) {
        Some(f) => f,
        None => return None,
    };
    if read_close(toks, i + 2, "value_sym") {
        Some((Symbol { id, body: SymbolBody::Value(Value { name, scope, field: Field::Token(f) }) }, i + 3))
    } else {
        None
    }
}

fn read_context_sym(toks: &Vec<XmlTag>, i: usize) -> (r: Option<(Symbol, usize)>)
    ensures
        match spec_context_sym_end(tags_view(toks@), i as int) {
            Some(j) => r is Some && r.unwrap().1 == j && i < j <= toks@.len() && a_u32hex(tags_view(toks@)[i as int], 1)
                == Some(r.unwrap().0.id) && (r.unwrap().0.body matches SymbolBody::Context(c) && spec_context_sym(tags_view(toks@), i as int, c)),
            None => r is None,
        },
{
    if i >= toks.len() || toks.len() - i <= 2 {
        return None;
    }
    let ti = tag_view_at(toks, i);
    if !is_tag(ti, TagKind::Open, "context_sym") {
        return None;
    }
    let (name, id, scope) = match (attr_string(ti, 0), attr_u32hex(ti, 1), attr_u32hex(ti, 2)) {
        (Some(a), Some(b), Some(c)) => (a, b, c),
        _ => return None,
    };
    let (varnode, low, high, flow) = match (attr_u32hex(ti, 3), attr_u32dec(ti, 4), attr_u32dec(ti, 5), attr_bool(ti, 6)) {
        (Some(a), Some(b), Some(c), Some(d)) => (a, b, c, d),
        _ => return None,
    };
    let context_field = match read_context_field(tag_view_at(toks, i + 1)) {
        Some(f) => f,
        None => return None,
    };
    if read_close(toks, i + 2, "context_sym") {
        let c = Context { name, scope, varnode, low, high, flow, context_field };
        Some((Symbol { id, body: SymbolBody::Context(c) }, i + 3))
    } else {
        None
    }
}

fn read_subtable_sym(toks: &Vec<XmlTag>, i: usize) -> (r: Option<(Symbol, usize)>)
    ensures
        match spec_subtable_end(tags_view(toks@), i as int) {
            Some(j) => r is Some && r.unwrap().1 == j && i < j <= toks@.len() && a_u32hex(tags_view(toks@)[i as int], 1)
                == Some(r.unwrap().0.id) && (r.unwrap().0.body matches SymbolBody::Subtable(st) && spec_subtable(tags_view(toks@), i as int, st)),
            None => r is None,
        },
{
    if i >= toks.len() {
        return None;
    }
    let id = match attr_u32hex(tag_view_at(toks, i), 1) {
        Some(id) => id,
        None => return None,
    };
    match read_subtable(toks, i) {
        Some((st, j)) => Some((Symbol { id, body: SymbolBody::Subtable(st) }, j)),
        None => None,
    }
}

/// Reads a symbol of several tags that starts at tag `i`, and where it ends.
pub fn read_big_symbol(toks: &Vec<XmlTag>, i: usize) -> (r: Option<(Symbol, usize)>)
    ensures
        match spec_big_symbol_end(tags_view(toks@), i as int) {
            Some(j) => r is Some && r.unwrap().1 == j && i < j <= toks@.len() && spec_big_symbol(
                tags_view(toks@),
                i as int,
                r.unwrap().0,
            ),
            None => r is None,
        },
{
    if i >= toks.len() {
        return None;
    }
    let ti = tag_view_at(toks, i);
    if is_tag(ti, TagKind::Open, "subtable_sym") {
        read_subtable_sym(toks, i)
    } else if is_tag(ti, TagKind::Open, "varnode_sym") {
        read_varnode_symbol(toks, i)
    } else if is_tag(ti, TagKind::Open, "valuemap_sym") {
        read_valuemap_sym(toks, i)
    } else if is_tag(ti, TagKind::Open, "varlist_sym") {
        read_varlist_sym(toks, i)
    } else if is_tag(ti, TagKind::Open, "name_sym") {
        read_name_sym(toks, i)
    } else if is_tag(ti, TagKind::Open, "value_sym") {
        read_value_sym(toks, i)
    } else if is_tag(ti, TagKind::Open, "context_sym") {
        read_context_sym(toks, i)
    } else if is_tag(ti, TagKind::Open, "operand_sym") {
        read_operand_sym(toks, i)
    } else {
        None
    }
}

/// Where the symbol that starts at `i` ends: one tag, or several.
pub open spec fn spec_symbol_end(t: Seq<TagV>, i: int) -> Option<int> {
    if 0 <= i < t.len() && spec_small_symbol_ok(t[i]) {
        Some(i + 1)
    } else {
        spec_big_symbol_end(t, i)
    }
}

/// The symbol written from `i`.
pub open spec fn spec_symbol(t: Seq<TagV>, i: int, sym: Symbol) -> bool {
    if 0 <= i < t.len() && spec_small_symbol_ok(t[i]) {
        spec_small_symbol(t[i], sym)
    } else {
        spec_big_symbol(t, i, sym)
    }
}

/// The symbols written one after another from `i`: where each starts, and where the run
/// ends.
pub open spec fn spec_symbols(t: Seq<TagV>, i: int) -> (Seq<int>, int)
    decreases t.len() - i,
{
    match spec_symbol_end(t, i) {
        Some(j) => if i < j <= t.len() {
            let (ss, e) = spec_symbols(t, j);
            (seq![i] + ss, e)
        } else {
            (seq![], i)
        },
        None => (seq![], i),
    }
}

/// Reads the symbol that starts at tag `i`, and where it ends.
pub fn read_symbol(toks: &Vec<XmlTag>, i: usize) -> (r: Option<(Symbol, usize)>)
    ensures
        match spec_symbol_end(tags_view(toks@), i as int) {
            Some(j) => r is Some && r.unwrap().1 == j && i < j <= toks@.len() && spec_symbol(
                tags_view(toks@),
                i as int,
                r.unwrap().0,
            ),
            None => r is None,
        },
{
    if i < toks.len() {
        match read_small_symbol(tag_view_at(toks, i)) {
            Some(sym) => Some((sym, i + 1)),
            None => read_big_symbol(toks, i),
        }
    } else {
        None
    }
}

fn read_symbols(toks: &Vec<XmlTag>, i: usize) -> (r: (Vec<Symbol>, usize))
    requires
        i <= toks@.len(),
    ensures
        ({
            let (ss, e) = spec_symbols(tags_view(toks@), i as int);
            &&& r.1 == e
            &&& i <= e <= toks@.len()
            &&& r.0@.len() == ss.len()
            &&& forall|k: int| 0 <= k < ss.len() ==> spec_symbol(tags_view(toks@), ss[k], #[trigger] r.0@[k])
        }),
{
    let ghost t = tags_view(toks@);
    let mut v: Vec<Symbol> = Vec::new();
    let ghost mut ss: Seq<int> = seq![];
    let mut k: usize = i;
    loop
        invariant
            i <= k <= toks@.len(),
            t == tags_view(toks@),
            spec_symbols(t, i as int) == (ss + spec_symbols(t, k as int).0, spec_symbols(t, k as int).1),
            v@.len() == ss.len(),
            forall|m: int| 0 <= m < ss.len() ==> spec_symbol(t, ss[m], #[trigger] v@[m]),
        decreases toks@.len() - k,
    {
        match read_symbol(toks, k) {
            Some((sym, j)) => {
                proof {
                    let (rest, e) = spec_symbols(t, j as int);
                    assert(spec_symbols(t, k as int) == (seq![k as int] + rest, e));
                    assert(ss + (seq![k as int] + rest) =~= ss.push(k as int) + rest);
                    ss = ss.push(k as int);
                }
                v.push(sym);
                k = j;
            },
            None => {
                proof {
                    assert(ss + seq![] =~= ss);
                }
                return (v, k);
            },
        }
    }
}

// ---------------------------------------------------------------------------------------
// The whole specification

/// Where the symbol table that starts at `i` ends: `<symbol_table` (with attributes),
/// one symbol or more, `</symbol_table>`.
pub open spec fn spec_symbol_table_end(t: Seq<TagV>, i: int) -> Option<int> {
    if 0 <= i < t.len() && tag_is(t[i], TagKind::Open, "symbol_table"@) && t[i].2.len() > 0 {
        let (ss, e) = spec_symbols(t, i + 1);
        if ss.len() > 0 && 0 <= e < t.len() && tag_is(t[e], TagKind::Close, "symbol_table"@) {
            Some(e + 1)
        } else {
            None
        }
    } else {
        None
    }
}

/// The symbols of the symbol table written from `i`.
pub open spec fn spec_symbol_table(t: Seq<TagV>, i: int, v: Seq<Symbol>) -> bool {
    let ss = spec_symbols(t, i + 1).0;
    &&& v.len() == ss.len()
    &&& forall|k: int| 0 <= k < ss.len() ==> spec_symbol(t, ss[k], #[trigger] v[k])
}

fn read_symbol_table(toks: &Vec<XmlTag>, i: usize) -> (r: Option<(Vec<Symbol>, usize)>)
    ensures
        match spec_symbol_table_end(tags_view(toks@), i as int) {
            Some(j) => r is Some && r.unwrap().1 == j && i < j <= toks@.len() && spec_symbol_table(
                tags_view(toks@),
                i as int,
                (r.unwrap().0)@,
            ),
            None => r is None,
        },
{
    if i >= toks.len() {
        return None;
    }
    let ti = tag_view_at(toks, i);
    if !(is_tag(ti, TagKind::Open, "symbol_table") && ti.attrs.len() > 0) {
        return None;
    }
    let (symbols, e) = read_symbols(toks, i + 1);
    if symbols.len() > 0 && read_close(toks, e, "symbol_table") {
        Some((symbols, e + 1))
    } else {
        None
    }
}

/// Where the run of address spaces from `i` ends.
pub open spec fn spec_space_run(t: Seq<TagV>, i: int) -> int
    decreases t.len() - i,
{
    if 0 <= i < t.len() && spec_space_ok(t[i]) {
        spec_space_run(t, i + 1)
    } else {
        i
    }
}

/// Where the spaces that start at `i` end: `<spaces` with the default space, one address
/// space or more, `</spaces>`.
pub open spec fn spec_spaces_end(t: Seq<TagV>, i: int) -> Option<int> {
    if 0 <= i < t.len() && tag_is(t[i], TagKind::Open, "spaces"@) && attr_val(t[i], 0) is Some {
        let e = spec_space_run(t, i + 1);
        if e > i + 1 && 0 <= e < t.len() && tag_is(t[e], TagKind::Close, "spaces"@) {
            Some(e + 1)
        } else {
            None
        }
    } else {
        None
    }
}

/// The default space and the address spaces written from `i`.
pub open spec fn spec_spaces(t: Seq<TagV>, i: int, default_space: Seq<char>, v: Seq<Space>) -> bool {
    &&& attr_val(t[i], 0) == Some(default_space)
    &&& v.len() == spec_space_run(t, i + 1) - (i + 1)
    &&& forall|k: int| 0 <= k < v.len() ==> spec_space(t[i + 1 + k], #[trigger] v[k])
}

fn read_spaces(toks: &Vec<XmlTag>, i: usize) -> (r: Option<(String, Vec<Space>, usize)>)
    ensures
        match spec_spaces_end(tags_view(toks@), i as int) {
            Some(j) => r is Some && r.unwrap().2 == j && i < j <= toks@.len() && spec_spaces(
                tags_view(toks@),
                i as int,
                (r.unwrap().0)@,
                (r.unwrap().1)@,
            ),
            None => r is None,
        },
{
    let ghost t = tags_view(toks@);
    if i >= toks.len() {
        return None;
    }
    let ti = tag_view_at(toks, i);
    if !is_tag(ti, TagKind::Open, "spaces") {
        return None;
    }
    let default_space = match attr_string(ti, 0) {
        Some(d) => d,
        None => return None,
    };
    let mut v: Vec<Space> = Vec::new();
    let mut k: usize = i + 1;
    while k < toks.len()
        invariant
            i + 1 <= k <= toks@.len(),
            t == tags_view(toks@),
            spec_space_run(t, i + 1) == spec_space_run(t, k as int),
            v@.len() == k - (i + 1),
            forall|m: int| 0 <= m < v@.len() ==> spec_space(t[i + 1 + m], #[trigger] v@[m]),
        ensures
            i + 1 <= k <= toks@.len(),
            spec_space_run(t, i + 1) == k,
            v@.len() == k - (i + 1),
            forall|m: int| 0 <= m < v@.len() ==> spec_space(t[i + 1 + m], #[trigger] v@[m]),
        decreases toks@.len() - k,
    {
        match read_space(tag_view_at(toks, k)) {
            Some(sp) => v.push(sp),
            None => break,
        }
        k = k + 1;
    }
    if k > i + 1 && read_close(toks, k, "spaces") {
        Some((default_space, v, k + 1))
    } else {
        None
    }
}

/// The first closing tag `name` from `i`, or the end.
pub open spec fn spec_find_close(t: Seq<TagV>, i: int, name: Seq<char>) -> int
    decreases t.len() - i,
{
    if 0 <= i < t.len() && !tag_is(t[i], TagKind::Close, name) {
        spec_find_close(t, i + 1, name)
    } else {
        i
    }
}

/// Where the list of source files that starts at `i` ends: `<sourcefiles>`, anything,
/// the first `</sourcefiles>`.
pub open spec fn spec_sourcefiles_end(t: Seq<TagV>, i: int) -> Option<int> {
    if 0 <= i < t.len() && is_bare_open(t[i], "sourcefiles"@) {
        let e = spec_find_close(t, i + 1, "sourcefiles"@);
        if e < t.len() {
            Some(e + 1)
        } else {
            None
        }
    } else {
        None
    }
}

fn read_sourcefiles(toks: &Vec<XmlTag>, i: usize) -> (r: Option<usize>)
    ensures
        match spec_sourcefiles_end(tags_view(toks@), i as int) {
            Some(j) => r == Some(j as usize) && i < j <= toks@.len(),
            None => r is None,
        },
{
    let ghost t = tags_view(toks@);
    if i >= toks.len() || !read_bare_open(tag_view_at(toks, i), "sourcefiles") {
        return None;
    }
    let mut k: usize = i + 1;
    while k < toks.len() && !is_tag(tag_view_at(toks, k), TagKind::Close, "sourcefiles")
        invariant
            i + 1 <= k <= toks@.len(),
            t == tags_view(toks@),
            spec_find_close(t, i + 1, "sourcefiles"@) == spec_find_close(t, k as int, "sourcefiles"@),
        decreases toks@.len() - k,
    {
        k = k + 1;
    }
    if k < toks.len() {
        Some(k + 1)
    } else {
        None
    }
}

/// Whether the first tag opens a specification: `<sleigh` with its format version,
/// endianness, alignment and the base of the unique space.
pub open spec fn spec_sleigh_head_ok(tv: TagV) -> bool {
    tag_is(tv, TagKind::Open, "sleigh"@) && a_u32dec(tv, 0) is Some && a_bool(tv, 1) is Some && a_u32dec(tv, 2)
        is Some && a_u64hex(tv, 3) is Some
}

/// Where the parts of a specification start: the source files, the spaces and the
/// symbol table, each where the one before ends.
pub open spec fn spec_program_parts(t: Seq<TagV>) -> Option<(int, int)> {
    match spec_sourcefiles_end(t, 1) {
        Some(s1) => match spec_spaces_end(t, s1) {
            Some(s2) => match spec_symbol_table_end(t, s2) {
                Some(_) => Some((s1, s2)),
                None => None,
            },
            None => None,
        },
        None => None,
    }
}

/// Whether the tags hold a specification: the opening `<sleigh` tag, the source files,
/// the spaces and the symbol table. What follows the symbol table is not read.
pub open spec fn spec_program_ok(t: Seq<TagV>) -> bool {
    t.len() > 0 && spec_sleigh_head_ok(t[0]) && spec_program_parts(t) is Some
}

/// The specification the tags hold.
pub open spec fn spec_program(t: Seq<TagV>, p: Program) -> bool {
    &&& spec_program_ok(t)
    &&& a_u32dec(t[0], 0) == Some(p.version)
    &&& a_bool(t[0], 1) == Some(p.bigendian)
    &&& a_u32dec(t[0], 2) == Some(p.align)
    &&& a_u64hex(t[0], 3) == Some(p.uniqbase)
    &&& {
        let (s1, s2) = spec_program_parts(t)->0;
        &&& spec_spaces(t, s1, p.default_space@, p.spaces@)
        &&& spec_symbol_table(t, s2, p.symbols@)
    }
}

/// Reads a specification from its tags.
pub fn read_program(toks: &Vec<XmlTag>) -> (r: Option<Program>)
    ensures
        r is Some == spec_program_ok(tags_view(toks@)),
        r is Some ==> spec_program(tags_view(toks@), r->0),
{
    if toks.len() == 0 {
        return None;
    }
    let t0 = tag_view_at(toks, 0);
    if !is_tag(t0, TagKind::Open, "sleigh") {
        return None;
    }
    let (version, bigendian, align, uniqbase) = match (attr_u32dec(t0, 0), attr_bool(t0, 1), attr_u32dec(t0, 2), attr_u64hex(t0, 3)) {
        (Some(a), Some(b), Some(c), Some(d)) => (a, b, c, d),
        _ => return None,
    };
    let s1 = match read_sourcefiles(toks, 1) {
        Some(s1) => s1,
        None => return None,
    };
    let (default_space, spaces, s2) = match read_spaces(toks, s1) {
        Some(x) => x,
        None => return None,
    };
    let (symbols, _s3) = match read_symbol_table(toks, s2) {
        Some(x) => x,
        None => return None,
    };
    Some(Program { version, bigendian, align, uniqbase, default_space, spaces, symbols })
}

/// Reads a compiled specification from its text: `None` where the text is not made of
/// well-formed tags (see `xml`) or its tags do not hold a specification.
pub fn program(input: &str) -> (r: Option<Program>)
    ensures
        match spec_lex(input@, 0) {
            Some(t) => r is Some == spec_program_ok(t) && (r is Some ==> spec_program(t, r->0)),
            None => r is None,
        },
{
    match tokenize(input) {
        Some(toks) => read_program(&toks),
        None => None,
    }
}

} // verus!
