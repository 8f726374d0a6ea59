//! Address spaces and addresses.
use vstd::prelude::*;
use crate::text::{push_str, push_hex, str_eq, spec_hex};
use crate::utils::{spec_from_str_radix, from_str_radix_chars, lemma_digits_value};
use crate::text::chars_of;
use super::seqnum::SeqNum;

verus! {

/// The address spaces a varnode can live in.
#[derive(PartialEq, Eq, Structural, Hash, Copy, Clone, Debug)]
pub enum AddressSpace {
    Const,
    Unique,
    Register,
    Ram,
    Stack,
    Deref,
    Dummy,
}

impl Default for AddressSpace {
    fn default() -> (r: AddressSpace)
        ensures
            r == AddressSpace::Dummy,
    {
        AddressSpace::Dummy
    }
}

/// The space that a space name in a specification file denotes.
pub open spec fn spec_space_of_name(s: Seq<char>) -> Option<AddressSpace> {
    if s == "ram"@ {
        Some(AddressSpace::Ram)
    } else if s == "register"@ {
        Some(AddressSpace::Register)
    } else if s == "const"@ {
        Some(AddressSpace::Const)
    } else if s == "unique"@ {
        Some(AddressSpace::Unique)
    } else if s == "stack"@ {
        Some(AddressSpace::Stack)
    } else if s == "deref"@ {
        Some(AddressSpace::Deref)
    } else if s == "dummy"@ {
        Some(AddressSpace::Dummy)
    } else {
        None
    }
}

/// The printed name of a space.
pub open spec fn spec_space_text(sp: AddressSpace) -> Seq<char> {
    match sp {
        AddressSpace::Ram => "ram"@,
        AddressSpace::Unique => "unique"@,
        AddressSpace::Const => "const"@,
        AddressSpace::Register => "register"@,
        AddressSpace::Stack => "stack"@,
        AddressSpace::Deref => "deref"@,
        AddressSpace::Dummy => "DUMMY"@,
    }
}

impl AddressSpace {
    /// The space with the given name, if the name is one of the known spaces.
    pub fn from_name(s: &str) -> (r: Option<AddressSpace>)
        ensures
            r == spec_space_of_name(s@),
    {
        if str_eq(s, "ram") {
            Some(AddressSpace::Ram)
        } else if str_eq(s, "register") {
            Some(AddressSpace::Register)
        } else if str_eq(s, "const") {
            Some(AddressSpace::Const)
        } else if str_eq(s, "unique") {
            Some(AddressSpace::Unique)
        } else if str_eq(s, "stack") {
            Some(AddressSpace::Stack)
        } else if str_eq(s, "deref") {
            Some(AddressSpace::Deref)
        } else if str_eq(s, "dummy") {
            Some(AddressSpace::Dummy)
        } else {
            None
        }
    }

    /// The space with the given name; the name must be a known space.
    pub fn from_str(s: &str) -> (r: AddressSpace)
        requires
            spec_space_of_name(s@) is Some,
        ensures
            spec_space_of_name(s@) == Some(r),
    {
        match Self::from_name(s) {
            Some(sp) => sp,
            None => AddressSpace::Dummy,
        }
    }

    pub fn is_unique(&self) -> (r: bool)
        ensures
            r == (*self == AddressSpace::Unique),
    {
        *self == AddressSpace::Unique
    }

    pub fn is_const(&self) -> (r: bool)
        ensures
            r == (*self == AddressSpace::Const),
    {
        *self == AddressSpace::Const
    }

    pub fn is_ram(&self) -> (r: bool)
        ensures
            r == (*self == AddressSpace::Ram),
    {
        *self == AddressSpace::Ram
    }

    pub fn is_dummy(&self) -> (r: bool)
        ensures
            r == (*self == AddressSpace::Dummy),
    {
        *self == AddressSpace::Dummy
    }

    /// The printed name of the space (`DUMMY` for the dummy space).
    pub fn to_string(&self) -> (r: String)
        ensures
            r@ == spec_space_text(*self),
    {
        let mut s = String::new();
        let t = match self {
            AddressSpace::Ram => "ram",
            AddressSpace::Unique => "unique",
            AddressSpace::Const => "const",
            AddressSpace::Register => "register",
            AddressSpace::Stack => "stack",
            AddressSpace::Deref => "deref",
            AddressSpace::Dummy => "DUMMY",
        };
        push_str(&mut s, t);
        s
    }
}

/// A location: a space and an offset in it.
#[derive(PartialEq, Eq, Structural, Hash, Copy, Clone, Debug)]
pub struct Address {
    pub space: AddressSpace,
    pub offset: u64,
}

impl Default for Address {
    fn default() -> (r: Address)
        ensures
            r == (Address { space: AddressSpace::Dummy, offset: 0 }),
    {
        Address { space: AddressSpace::Dummy, offset: 0 }
    }
}

/// The address written `0x<hex>`, read into the ram space.
pub open spec fn spec_address_of_text(s: Seq<char>) -> Option<Address> {
    if s.len() >= 2 && s[0] == '0' && s[1] == 'x' {
        match spec_from_str_radix(s.skip(2), 16) {
            Some(v) => Some(Address { space: AddressSpace::Ram, offset: v }),
            None => None,
        }
    } else {
        None
    }
}

impl Address {
    /// The same space, `addend` further on.
    pub fn adding(&self, addend: u64) -> (r: Address)
        requires
            self.offset + addend <= u64::MAX,
        ensures
            r.space == self.space,
            r.offset == self.offset + addend,
    {
        Address { space: self.space, offset: self.offset + addend }
    }

    /// The ram address at `off`.
    pub fn ram(off: u64) -> (r: Address)
        ensures
            r.space == AddressSpace::Ram,
            r.offset == off,
    {
        Address { space: AddressSpace::Ram, offset: off }
    }

    /// The first sequence number at this address.
    pub fn seq(&self) -> (r: SeqNum)
        ensures
            r.pc == *self,
            r.uniq == 0,
    {
        SeqNum { pc: *self, uniq: 0 }
    }

    /// The ram address written `0x<hex>`, or `None` when the text is not of that form.
    pub fn from_hex_text(s: &str) -> (r: Option<Address>)
        ensures
            r == spec_address_of_text(s@),
    {
        let v = chars_of(s);
        if v.len() >= 2 && v[0] == '0' && v[1] == 'x' {
            match from_str_radix_chars(v.as_slice(), 2, 16) {
                Some(off) => Some(Address::ram(off)),
                None => None,
            }
        } else {
            None
        }
    }

    /// The ram address written `0x<hex>`; the text must be of that form.
    pub fn from_str(s: &str) -> (r: Address)
        requires
            spec_address_of_text(s@) is Some,
        ensures
            spec_address_of_text(s@) == Some(r),
    {
        match Self::from_hex_text(s) {
            Some(a) => a,
            None => Address::ram(0),
        }
    }

    /// Whether this address comes before `other`; addresses are ordered by offset alone.
    pub fn lt(&self, other: &Address) -> (r: bool)
        ensures
            r == (self.offset < other.offset),
    {
        self.offset < other.offset
    }

    /// The printed form `0x<hex offset>`.
    pub fn to_string(&self) -> (r: String)
        ensures
            r@ == "0x"@ + spec_hex(self.offset as nat),
    {
        let mut s = String::new();
        push_str(&mut s, "0x");
        push_hex(&mut s, self.offset);
        s
    }
}

/// Reading back the text of an address gives the ram address at the same offset.
pub proof fn lemma_address_text_roundtrip(a: Address)
    ensures
        spec_address_of_text("0x"@ + spec_hex(a.offset as nat)) == Some(Address { space: AddressSpace::Ram, offset: a.offset }),
{
    reveal_strlit("0x");
    let t = "0x"@ + spec_hex(a.offset as nat);
    lemma_digits_value(a.offset as nat, 16);
    assert(t.skip(2) =~= spec_hex(a.offset as nat));
}

/// Naming a space and printing it give back the space, for every space but the dummy one
/// (printed `DUMMY`, named `dummy`).
pub proof fn lemma_space_name_roundtrip(sp: AddressSpace)
    requires
        sp != AddressSpace::Dummy,
    ensures
        spec_space_of_name(spec_space_text(sp)) == Some(sp),
{
    reveal_strlit("ram");
    reveal_strlit("register");
    reveal_strlit("const");
    reveal_strlit("unique");
    reveal_strlit("stack");
    reveal_strlit("deref");
    reveal_strlit("dummy");
    reveal_strlit("DUMMY");
    match sp {
        AddressSpace::Ram => {},
        AddressSpace::Register => {
            assert("register"@.len() != "ram"@.len());
        },
        AddressSpace::Const => {
            assert("const"@[0] != "ram"@[0]);
        },
        AddressSpace::Unique => {
            assert("unique"@[0] != "ram"@[0]);
        },
        AddressSpace::Stack => {
            assert("stack"@[0] != "const"@[0]);
        },
        AddressSpace::Deref => {
            assert("deref"@[0] != "const"@[0]);
            assert("deref"@[0] != "stack"@[0]);
        },
        AddressSpace::Dummy => {},
    }
}

} // verus!
