//! Addresses, sequence numbers and varnodes of the decompiler library's p-code.
use vstd::prelude::*;
use crate::text::{push_str, push_char, push_dec, push_hex, spec_dec, spec_hex, str_eq};

verus! {

/// The address spaces of the decompiler library; other spaces keep their name.
#[derive(Clone, Debug)]
pub enum AddressSpace {
    Const,
    Register,
    Ram,
    Unique,
    Other(String),
}

/// Whether two spaces are the same (other spaces compared by name).
pub open spec fn spec_same_space(a: AddressSpace, b: AddressSpace) -> bool {
    match (a, b) {
        (AddressSpace::Const, AddressSpace::Const) => true,
        (AddressSpace::Register, AddressSpace::Register) => true,
        (AddressSpace::Ram, AddressSpace::Ram) => true,
        (AddressSpace::Unique, AddressSpace::Unique) => true,
        (AddressSpace::Other(x), AddressSpace::Other(y)) => x@ == y@,
        _ => false,
    }
}

impl PartialEq for AddressSpace {
    fn eq(&self, other: &Self) -> (r: bool) {
        match (self, other) {
            (AddressSpace::Const, AddressSpace::Const) => true,
            (AddressSpace::Register, AddressSpace::Register) => true,
            (AddressSpace::Ram, AddressSpace::Ram) => true,
            (AddressSpace::Unique, AddressSpace::Unique) => true,
            (AddressSpace::Other(x), AddressSpace::Other(y)) => str_eq(x.as_str(), y.as_str()),
            _ => false,
        }
    }
}

impl vstd::std_specs::cmp::PartialEqSpecImpl for AddressSpace {
    open spec fn obeys_eq_spec() -> bool {
        true
    }

    open spec fn eq_spec(&self, other: &Self) -> bool {
        spec_same_space(*self, *other)
    }
}

/// A location: a space and an offset in it.
#[derive(Clone, Debug)]
pub struct Address {
    pub space: AddressSpace,
    pub offset: u64,
}

/// What an address offers: its offset, and the address a number of bytes on.
pub trait AddressIface: Sized {
    fn as_int(&self) -> (r: u64);

    fn adding(&self, addend: u64) -> (r: Address)
        requires
            self.spec_offset() + addend <= u64::MAX,
    ;

    spec fn spec_offset(&self) -> u64;
}

impl AddressIface for Address {
    open spec fn spec_offset(&self) -> u64 {
        self.offset
    }

    fn as_int(&self) -> (r: u64)
        ensures
            r == self.offset,
    {
        self.offset
    }

    fn adding(&self, addend: u64) -> (r: Address)
        ensures
            spec_same_space(r.space, self.space),
            r.offset == self.offset + addend,
    {
        Address { space: clone_space(&self.space), offset: self.offset + addend }
    }
}

/// A copy of a space.
pub fn clone_space(s: &AddressSpace) -> (r: AddressSpace)
    ensures
        spec_same_space(r, *s),
        r == *s,
{
    match s {
        AddressSpace::Const => AddressSpace::Const,
        AddressSpace::Register => AddressSpace::Register,
        AddressSpace::Ram => AddressSpace::Ram,
        AddressSpace::Unique => AddressSpace::Unique,
        AddressSpace::Other(n) => AddressSpace::Other(n.clone()),
    }
}

impl Address {
    /// The printed form `0x<hex>`.
    pub fn to_string(&self) -> (r: String)
        ensures
            r@ == "0x"@ + spec_hex(self.offset as nat),
    {
        let mut s = String::new();
        push_str(&mut s, "0x");
        push_hex(&mut s, self.offset);
        assert(Seq::<char>::empty() + "0x"@ + spec_hex(self.offset as nat) =~= "0x"@ + spec_hex(self.offset as nat));
        s
    }
}

/// The position of an op: the instruction's address, the op's index and its order.
#[derive(Clone, Debug)]
pub struct SeqNum {
    pub pc: Address,
    pub uniq: i32,
    pub order: u32,
}

/// Moving between neighbouring sequence numbers.
pub trait SeqNumIface: Sized {
    spec fn spec_uniq(&self) -> i32;

    fn next(&self) -> (r: Self)
        requires
            self.spec_uniq() < i32::MAX,
    ;

    fn prev(&self) -> (r: Self)
        requires
            self.spec_uniq() > i32::MIN,
    ;
}

impl SeqNumIface for SeqNum {
    open spec fn spec_uniq(&self) -> i32 {
        self.uniq
    }

    fn next(&self) -> (r: SeqNum)
        ensures
            r == (SeqNum { uniq: (self.uniq + 1) as i32, ..*self }),
    {
        SeqNum { pc: Address { space: clone_space(&self.pc.space), offset: self.pc.offset }, uniq: self.uniq + 1, order: self.order }
    }

    fn prev(&self) -> (r: SeqNum)
        ensures
            r == (SeqNum { uniq: (self.uniq - 1) as i32, ..*self }),
    {
        SeqNum { pc: Address { space: clone_space(&self.pc.space), offset: self.pc.offset }, uniq: self.uniq - 1, order: self.order }
    }
}

impl SeqNum {
    /// The printed form `0x<hex address>:<index>`.
    pub fn to_string(&self) -> (r: String)
        ensures
            r@ == "0x"@ + spec_hex(self.pc.offset as nat) + seq![':'] + crate::text::spec_dec_signed(self.uniq as int),
    {
        let mut s = self.pc.to_string();
        push_char(&mut s, ':');
        crate::text::push_dec_signed(&mut s, self.uniq as i64);
        assert(("0x"@ + spec_hex(self.pc.offset as nat)).push(':') =~= "0x"@ + spec_hex(self.pc.offset as nat) + seq![':']);
        s
    }
}

/// A varnode of the decompiler library: an optional name, a space, an offset and a size.
#[derive(Clone, Debug)]
pub struct Varnode {
    pub name: Option<String>,
    pub space: AddressSpace,
    pub offset: u64,
    pub size: u32,
}

/// A varnode in SSA form: a varnode and its version.
#[derive(Clone, Debug)]
pub struct SsaVarnode {
    pub inner: Varnode,
    pub version: u32,
}

/// The kind of an op, as later passes sort ops.
#[derive(PartialEq, Eq, Structural, Hash, Copy, Clone, Debug)]
pub enum PcodeType {
    Default,
    Call,
    Ret,
    Phi,
}

/// The printed form of a varnode: its name, else its location.
pub open spec fn spec_varnode_text(v: Varnode) -> Seq<char> {
    match v.name {
        Some(n) => n@,
        None => match v.space {
            AddressSpace::Register => spec_dec(v.offset as nat) + "_"@ + spec_dec(v.size as nat),
            AddressSpace::Unique => "U"@ + spec_hex(v.offset as nat) + ":"@ + spec_dec(v.size as nat),
            AddressSpace::Const => "0x"@ + spec_hex(v.offset as nat) + ":"@ + spec_dec(v.size as nat),
            AddressSpace::Ram => "[ram]0x"@ + spec_hex(v.offset as nat) + ":"@ + spec_dec(v.size as nat),
            AddressSpace::Other(s) => "["@ + s@ + "]0x"@ + spec_hex(v.offset as nat) + ":"@ + spec_dec(v.size as nat),
        },
    }
}

/// The subscript digit `d` (`₀` to `₉`).
pub open spec fn subscript_char(d: nat) -> char {
    if d == 0 { '\u{2080}' } else if d == 1 { '\u{2081}' } else if d == 2 { '\u{2082}' } else if d == 3 { '\u{2083}' }
    else if d == 4 { '\u{2084}' } else if d == 5 { '\u{2085}' } else if d == 6 { '\u{2086}' } else if d == 7 { '\u{2087}' }
    else if d == 8 { '\u{2088}' } else { '\u{2089}' }
}

/// The decimal digits of `n` written as subscripts.
pub open spec fn spec_subscripts(n: nat) -> Seq<char>
    decreases n,
{
    if n < 10 {
        seq![subscript_char(n)]
    } else {
        spec_subscripts(n / 10).push(subscript_char(n % 10))
    }
}

fn subscript_of(d: u32) -> (c: char)
    requires
        d < 10,
    ensures
        c == subscript_char(d as nat),
{
    if d == 0 { '\u{2080}' } else if d == 1 { '\u{2081}' } else if d == 2 { '\u{2082}' } else if d == 3 { '\u{2083}' }
    else if d == 4 { '\u{2084}' } else if d == 5 { '\u{2085}' } else if d == 6 { '\u{2086}' } else if d == 7 { '\u{2087}' }
    else if d == 8 { '\u{2088}' } else { '\u{2089}' }
}

fn push_subscripts(s: &mut String, n: u32)
    ensures
        final(s)@ == old(s)@ + spec_subscripts(n as nat),
    decreases n,
{
    if n < 10 {
        push_char(s, subscript_of(n));
        assert(old(s)@.push(subscript_char(n as nat)) =~= old(s)@ + seq![subscript_char(n as nat)]);
    } else {
        push_subscripts(s, n / 10);
        push_char(s, subscript_of(n % 10));
        assert((old(s)@ + spec_subscripts((n / 10) as nat)).push(subscript_char((n % 10) as nat)) =~= old(s)@ + spec_subscripts((n / 10) as nat).push(subscript_char((n % 10) as nat)));
    }
}

impl Varnode {
    /// The printed form of the varnode (see `spec_varnode_text`).
    pub fn to_string(&self) -> (r: String)
        ensures
            r@ == spec_varnode_text(*self),
    {
        match &self.name {
            Some(n) => n.clone(),
            None => {
                let mut s = String::new();
                match &self.space {
                    AddressSpace::Register => {
                        push_dec(&mut s, self.offset);
                        push_str(&mut s, "_");
                        push_dec(&mut s, self.size as u64);
                    },
                    AddressSpace::Unique => {
                        push_str(&mut s, "U");
                        push_hex(&mut s, self.offset);
                        push_str(&mut s, ":");
                        push_dec(&mut s, self.size as u64);
                    },
                    AddressSpace::Const => {
                        push_str(&mut s, "0x");
                        push_hex(&mut s, self.offset);
                        push_str(&mut s, ":");
                        push_dec(&mut s, self.size as u64);
                    },
                    AddressSpace::Ram => {
                        push_str(&mut s, "[ram]0x");
                        push_hex(&mut s, self.offset);
                        push_str(&mut s, ":");
                        push_dec(&mut s, self.size as u64);
                    },
                    AddressSpace::Other(name) => {
                        push_str(&mut s, "[");
                        push_str(&mut s, name.as_str());
                        push_str(&mut s, "]0x");
                        push_hex(&mut s, self.offset);
                        push_str(&mut s, ":");
                        push_dec(&mut s, self.size as u64);
                    },
                }
                assert(s@ =~= spec_varnode_text(*self));
                s
            },
        }
    }
}

impl SsaVarnode {
    /// The printed form: the varnode's text followed by its version in subscript digits.
    pub fn to_string(&self) -> (r: String)
        ensures
            r@ == spec_varnode_text(self.inner) + spec_subscripts(self.version as nat),
    {
        let mut s = self.inner.to_string();
        push_subscripts(&mut s, self.version);
        s
    }
}

/// What a varnode offers: where it is and what kind of space it lives in.
pub trait VarnodeIface: Sized {
    spec fn spec_space(&self) -> AddressSpace;

    spec fn spec_offset(&self) -> u64;

    spec fn spec_size(&self) -> u32;

    spec fn spec_copy_with(&self, offset: u64, size: u32, name: Option<String>) -> Self;

    fn space(&self) -> (r: &AddressSpace)
        ensures
            *r == self.spec_space(),
    ;

    fn offset(&self) -> (r: u64)
        ensures
            r == self.spec_offset(),
    ;

    fn size(&self) -> (r: u32)
        ensures
            r == self.spec_size(),
    ;

    fn is_const(&self) -> (r: bool)
        ensures
            r == (self.spec_space() is Const),
    ;

    fn is_unique(&self) -> (r: bool)
        ensures
            r == (self.spec_space() is Unique),
    ;

    fn is_ram(&self) -> (r: bool)
        ensures
            r == (self.spec_space() is Ram),
    ;

    fn is_reg(&self) -> (r: bool)
        ensures
            r == (self.spec_space() is Register),
    ;

    /// The plain varnode behind this one.
    spec fn spec_vnode(&self) -> Varnode;

    fn as_vnode(&self) -> (r: Varnode)
        ensures
            r == self.spec_vnode(),
    ;

    fn atoms(&self) -> (r: Vec<Self>)
        ensures
            self.spec_space() is Const ==> r@ == seq![*self],
            !(self.spec_space() is Const) ==> r@ == Seq::new(self.spec_size() as nat, |i: int| self.spec_copy_with(i as u64, 1, None)),
    ;
}

/// The byte-sized pieces of a varnode: a constant is one piece; any other varnode gives one
/// piece of one byte for each of its bytes, at offsets 0 up to its size.
pub open spec fn spec_atoms<V: VarnodeIface>(v: V) -> Seq<V> {
    if v.spec_space() is Const {
        seq![v]
    } else {
        Seq::new(v.spec_size() as nat, |i: int| v.spec_copy_with(i as u64, 1, None))
    }
}

/// Copying a varnode to another place, and whether one varnode directly follows another.
pub trait VarnodeIface2: VarnodeIface {
    fn copy_with(&self, offset: u64, size: u32, name: Option<String>) -> (r: Self)
        ensures
            r == self.spec_copy_with(offset, size, name),
            r.spec_offset() == offset,
            r.spec_size() == size,
            spec_same_space(r.spec_space(), self.spec_space()),
    ;

    spec fn spec_is_next(&self, other: &Self) -> bool;

    fn is_next(&self, other: &Self) -> (r: bool)
        ensures
            r == self.spec_is_next(other),
            r ==> other.spec_offset() + 1 == self.spec_offset() && spec_same_space(self.spec_space(), other.spec_space()),
    ;
}

/// A varnode that can be printed and copied.
pub trait Vnode: VarnodeIface2 {
    spec fn spec_text(&self) -> Seq<char>;

    fn text(&self) -> (r: String)
        ensures
            r@ == self.spec_text(),
    ;

    fn duplicate(&self) -> (r: Self)
        ensures
            r == *self,
    ;

    spec fn spec_same(&self, other: &Self) -> bool;

    /// Whether two varnodes are equal, names compared by their characters.
    fn same(&self, other: &Self) -> (r: bool)
        ensures
            r == self.spec_same(other),
    ;
}

fn space_is_next(a: &AddressSpace, b: &AddressSpace) -> (r: bool)
    ensures
        r == spec_same_space(*a, *b),
{
    *a == *b
}

impl VarnodeIface for Varnode {
    open spec fn spec_space(&self) -> AddressSpace {
        self.space
    }

    open spec fn spec_offset(&self) -> u64 {
        self.offset
    }

    open spec fn spec_size(&self) -> u32 {
        self.size
    }

    open spec fn spec_copy_with(&self, offset: u64, size: u32, name: Option<String>) -> Self {
        Varnode { name, space: self.space, offset, size }
    }

    fn space(&self) -> (r: &AddressSpace) {
        &self.space
    }

    fn offset(&self) -> (r: u64) {
        self.offset
    }

    fn size(&self) -> (r: u32) {
        self.size
    }

    fn is_const(&self) -> (r: bool) {
        matches!(self.space, AddressSpace::Const)
    }

    fn is_unique(&self) -> (r: bool) {
        matches!(self.space, AddressSpace::Unique)
    }

    fn is_ram(&self) -> (r: bool) {
        matches!(self.space, AddressSpace::Ram)
    }

    fn is_reg(&self) -> (r: bool) {
        matches!(self.space, AddressSpace::Register)
    }

    open spec fn spec_vnode(&self) -> Varnode {
        *self
    }

    fn as_vnode(&self) -> (r: Varnode) {
        self.duplicate()
    }

    fn atoms(&self) -> (r: Vec<Self>) {
        let mut v: Vec<Varnode> = Vec::new();
        if self.is_const() {
            v.push(self.duplicate());
        } else {
            let mut i: u32 = 0;
            while i < self.size
                invariant
                    i <= self.size,
                    v@.len() == i,
                    forall|j: int| 0 <= j < i ==> #[trigger] v@[j] == self.spec_copy_with(j as u64, 1, None),
                decreases self.size - i,
            {
                v.push(self.copy_with(i as u64, 1, None));
                i = i + 1;
            }
        }
        assert(self.spec_space() is Const ==> v@ =~= seq![*self]);
        assert(!(self.spec_space() is Const) ==> v@ =~= Seq::new(self.spec_size() as nat, |i: int| self.spec_copy_with(i as u64, 1, None)));
        v
    }
}

impl VarnodeIface2 for Varnode {
    open spec fn spec_is_next(&self, other: &Self) -> bool {
        other.offset + 1 == self.offset && spec_same_space(self.space, other.space)
    }

    fn copy_with(&self, offset: u64, size: u32, name: Option<String>) -> (r: Self) {
        Varnode { name, space: clone_space(&self.space), offset, size }
    }

    fn is_next(&self, other: &Self) -> (r: bool) {
        other.offset < u64::MAX && other.offset + 1 == self.offset && space_is_next(&self.space, &other.space)
    }
}

impl Vnode for Varnode {
    open spec fn spec_text(&self) -> Seq<char> {
        spec_varnode_text(*self)
    }

    open spec fn spec_same(&self, other: &Self) -> bool {
        &&& match (self.name, other.name) {
            (Some(a), Some(b)) => a@ == b@,
            (None, None) => true,
            _ => false,
        }
        &&& spec_same_space(self.space, other.space)
        &&& self.offset == other.offset
        &&& self.size == other.size
    }

    fn same(&self, other: &Self) -> (r: bool) {
        let names = match (&self.name, &other.name) {
            (Some(a), Some(b)) => str_eq(a.as_str(), b.as_str()),
            (None, None) => true,
            _ => false,
        };
        names && self.space == other.space && self.offset == other.offset && self.size == other.size
    }

    fn text(&self) -> (r: String) {
        self.to_string()
    }

    fn duplicate(&self) -> (r: Self) {
        let name = match &self.name {
            Some(n) => Some(n.clone()),
            None => None,
        };
        Varnode { name, space: clone_space(&self.space), offset: self.offset, size: self.size }
    }
}

impl VarnodeIface for SsaVarnode {
    open spec fn spec_space(&self) -> AddressSpace {
        self.inner.space
    }

    open spec fn spec_offset(&self) -> u64 {
        self.inner.offset
    }

    open spec fn spec_size(&self) -> u32 {
        self.inner.size
    }

    open spec fn spec_copy_with(&self, offset: u64, size: u32, name: Option<String>) -> Self {
        SsaVarnode { inner: Varnode { name, space: self.inner.space, offset, size }, version: self.version }
    }

    fn space(&self) -> (r: &AddressSpace) {
        &self.inner.space
    }

    fn offset(&self) -> (r: u64) {
        self.inner.offset
    }

    fn size(&self) -> (r: u32) {
        self.inner.size
    }

    fn is_const(&self) -> (r: bool) {
        self.inner.is_const()
    }

    fn is_unique(&self) -> (r: bool) {
        self.inner.is_unique()
    }

    fn is_ram(&self) -> (r: bool) {
        self.inner.is_ram()
    }

    fn is_reg(&self) -> (r: bool) {
        self.inner.is_reg()
    }

    open spec fn spec_vnode(&self) -> Varnode {
        self.inner
    }

    fn as_vnode(&self) -> (r: Varnode) {
        self.inner.duplicate()
    }

    fn atoms(&self) -> (r: Vec<Self>) {
        let mut v: Vec<SsaVarnode> = Vec::new();
        if self.is_const() {
            v.push(self.duplicate());
        } else {
            let mut i: u32 = 0;
            while i < self.inner.size
                invariant
                    i <= self.inner.size,
                    v@.len() == i,
                    forall|j: int| 0 <= j < i ==> #[trigger] v@[j] == self.spec_copy_with(j as u64, 1, None),
                decreases self.inner.size - i,
            {
                v.push(self.copy_with(i as u64, 1, None));
                i = i + 1;
            }
        }
        assert(self.spec_space() is Const ==> v@ =~= seq![*self]);
        assert(!(self.spec_space() is Const) ==> v@ =~= Seq::new(self.spec_size() as nat, |i: int| self.spec_copy_with(i as u64, 1, None)));
        v
    }
}

impl VarnodeIface2 for SsaVarnode {
    open spec fn spec_is_next(&self, other: &Self) -> bool {
        self.inner.spec_is_next(&other.inner) && self.version == other.version
    }

    fn copy_with(&self, offset: u64, size: u32, name: Option<String>) -> (r: Self) {
        SsaVarnode { inner: self.inner.copy_with(offset, size, name), version: self.version }
    }

    fn is_next(&self, other: &Self) -> (r: bool) {
        self.inner.is_next(&other.inner) && self.version == other.version
    }
}

impl Vnode for SsaVarnode {
    open spec fn spec_text(&self) -> Seq<char> {
        spec_varnode_text(self.inner) + spec_subscripts(self.version as nat)
    }

    open spec fn spec_same(&self, other: &Self) -> bool {
        self.inner.spec_same(&other.inner) && self.version == other.version
    }

    fn same(&self, other: &Self) -> (r: bool) {
        self.inner.same(&other.inner) && self.version == other.version
    }

    fn text(&self) -> (r: String) {
        self.to_string()
    }

    fn duplicate(&self) -> (r: Self) {
        SsaVarnode { inner: self.inner.duplicate(), version: self.version }
    }
}

} // verus!
