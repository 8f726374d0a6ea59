//! Varnodes: sized locations in an address space, and the register names given to them.
use vstd::prelude::*;
use super::address::AddressSpace;
use crate::text::{push_str, push_char, push_hex, push_dec, spec_hex, spec_dec};

verus! {

/// A location of `size` bytes at `offset` in `space`, with an optional register name.
/// Two varnodes are equal when space, offset and size agree; the name is not compared.
#[derive(Debug)]
pub struct Varnode {
    pub name: Option<String>,
    pub space: AddressSpace,
    pub offset: u64,
    pub size: u64,
}

impl Clone for Varnode {
    fn clone(&self) -> (r: Self)
        ensures
            r == *self,
    {
        let name = match &self.name {
            Some(n) => Some(n.clone()),
            None => None,
        };
        Varnode { name, space: self.space, offset: self.offset, size: self.size }
    }
}

impl PartialEq for Varnode {
    fn eq(&self, other: &Self) -> (r: bool) {
        self.space == other.space && self.offset == other.offset && self.size == other.size
    }
}

impl vstd::std_specs::cmp::PartialEqSpecImpl for Varnode {
    open spec fn obeys_eq_spec() -> bool {
        true
    }

    open spec fn eq_spec(&self, other: &Self) -> bool {
        self.space == other.space && self.offset == other.offset && self.size == other.size
    }
}

impl Eq for Varnode {

}

/// Whether two varnodes denote the same location (names aside).
pub open spec fn same_location(a: Varnode, b: Varnode) -> bool {
    a.space == b.space && a.offset == b.offset && a.size == b.size
}

/// Sign-extends the low `size` bytes of `v` to 64 bits.
pub open spec fn spec_sign_extend64(v: u64, size: u64) -> u64 {
    let shift = (64 - size * 8) as u64;
    (((v << shift) as i64) >> shift) as u64
}

/// The register names of a language, keyed by offset and size in the register space. When a
/// key occurs more than once, the latest entry counts.
#[derive(Debug)]
pub struct VarnodeMap {
    pub entries: Vec<(u64, u64, String)>,
}

/// The name that the latest entry for `(offset, size)` gives, if any.
pub open spec fn spec_map_lookup(entries: Seq<(u64, u64, String)>, offset: u64, size: u64) -> Option<String>
    decreases entries.len(),
{
    if entries.len() == 0 {
        None
    } else if entries.last().0 == offset && entries.last().1 == size {
        Some(entries.last().2)
    } else {
        spec_map_lookup(entries.drop_last(), offset, size)
    }
}

impl VarnodeMap {
    /// A map with no register names.
    pub fn new() -> (r: VarnodeMap)
        ensures
            r.entries@.len() == 0,
    {
        VarnodeMap { entries: Vec::new() }
    }

    /// Names the register at `(offset, size)`, replacing any earlier name for it.
    pub fn insert(&mut self, offset: u64, size: u64, name: String)
        ensures
            final(self).entries@ == old(self).entries@.push((offset, size, name)),
    {
        self.entries.push((offset, size, name));
    }

    /// The name of the register at `(offset, size)`, if there is one.
    pub fn get(&self, offset: u64, size: u64) -> (r: Option<String>)
        ensures
            r == spec_map_lookup(self.entries@, offset, size),
    {
        let mut i = self.entries.len();
        assert(self.entries@.take(i as int) =~= self.entries@);
        while i > 0
            invariant
                i <= self.entries@.len(),
                spec_map_lookup(self.entries@, offset, size) == spec_map_lookup(
                    self.entries@.take(i as int),
                    offset,
                    size,
                ),
            decreases i,
        {
            let ghost pre = self.entries@.take(i as int);
            assert(pre.drop_last() =~= self.entries@.take(i - 1));
            let e = &self.entries[i - 1];
            if e.0 == offset && e.1 == size {
                return Some(e.2.clone());
            }
            i = i - 1;
        }
        None
    }
}

/// The printed form of a varnode: its name (string constants in magenta, registers in
/// yellow), or its space, offset and size.
pub open spec fn spec_varnode_text(v: Varnode) -> Seq<char> {
    match v.name {
        Some(name) => if name@.len() > 0 && name@[0] == '"' && name@.last() == '"' {
            "\x1b[1;35m"@ + name@ + "\x1b[0m"@
        } else {
            "\x1b[1;33m"@ + name@ + "\x1b[0m"@
        },
        None => match v.space {
            AddressSpace::Unique => "U"@ + spec_hex(v.offset as nat) + ":"@ + spec_dec(v.size as nat),
            AddressSpace::Const => "\x1b[1;32m0x"@ + spec_hex(v.offset as nat) + "\x1b[0m"@,
            AddressSpace::Register => "R"@ + spec_hex(v.offset as nat) + ":"@ + spec_dec(
                v.size as nat,
            ),
            AddressSpace::Ram => "[ram]0x"@ + spec_hex(v.offset as nat) + ":"@ + spec_dec(
                v.size as nat,
            ),
            AddressSpace::Stack => "[stack]0x"@ + spec_hex(v.offset as nat) + ":"@ + spec_dec(
                v.size as nat,
            ),
            AddressSpace::Deref => "[deref]0x"@ + spec_hex(v.offset as nat) + ":"@ + spec_dec(
                v.size as nat,
            ),
            AddressSpace::Dummy => "DUMMY"@,
        },
    }
}

/// How a call target is printed: its name, `FUN_<hex>` for a ram or constant address,
/// else the varnode itself.
pub open spec fn spec_call_target_text(v: Varnode) -> Seq<char> {
    match v.name {
        Some(name) => name@,
        None => if v.space == AddressSpace::Ram || v.space == AddressSpace::Const {
            "\x1b[1m\x1b[38;5;208mFUN_"@ + spec_hex(v.offset as nat) + "\x1b[0m"@
        } else {
            spec_varnode_text(v)
        },
    }
}

impl Varnode {
    /// The one-byte varnode at `off` in this varnode's space.
    pub fn atom(&self, off: u64) -> (r: Varnode)
        ensures
            r == (Varnode { name: None, space: self.space, offset: off, size: 1 }),
    {
        Varnode { name: None, space: self.space, offset: off, size: 1 }
    }

    /// The empty varnode of the dummy space.
    pub fn dummy() -> (r: Varnode)
        ensures
            r == (Varnode { name: None, space: AddressSpace::Dummy, offset: 0, size: 0 }),
    {
        Varnode { name: None, space: AddressSpace::Dummy, offset: 0, size: 0 }
    }

    /// The constant `off` of `size` bytes.
    pub fn constant(off: u64, size: u64) -> (r: Varnode)
        ensures
            r == (Varnode { name: None, space: AddressSpace::Const, offset: off, size }),
    {
        Varnode { name: None, space: AddressSpace::Const, offset: off, size }
    }

    /// Whether this is a constant whose sign bit (the top bit of its `size` bytes) is set.
    pub fn is_negative(&self) -> (r: bool)
        requires
            self.space == AddressSpace::Const ==> 1 <= self.size <= 8,
        ensures
            r == (self.space == AddressSpace::Const && (self.offset >> ((self.size * 8 - 1) as u64))
                != 0),
    {
        self.space.is_const() && self.offset >> ((self.size * 8) - 1) != 0
    }

    /// The two's complement negation of the sign-extended offset, over 64 bits.
    pub fn negate(&self) -> (r: Varnode)
        requires
            1 <= self.size <= 8,
            spec_sign_extend64(self.offset, self.size) != 0,
        ensures
            r.name == self.name,
            r.space == self.space,
            r.size == self.size,
            r.offset == (!spec_sign_extend64(self.offset, self.size)) + 1,
    {
        let shift: u64 = 64 - self.size * 8;
        let off = (((self.offset << shift) as i64) >> shift) as u64;
        assert(off == spec_sign_extend64(self.offset, self.size));
        assert(off != 0 ==> (off ^ 0xffffffffffffffffu64) == !off) by (bit_vector);
        assert(off != 0 ==> !off < 0xffffffffffffffffu64) by (bit_vector);
        let signed_off = (off ^ 0xffffffffffffffff) + 1;
        let name = match &self.name {
            Some(n) => Some(n.clone()),
            None => None,
        };
        Varnode { name, space: self.space, offset: signed_off, size: self.size }
    }

    /// The varnode `addend` bytes further on with `new_size` bytes; in the register space it
    /// takes the name that `varnode_map` gives that location.
    pub fn truncate(&self, addend: u64, new_size: u64, varnode_map: &VarnodeMap) -> (r: Varnode)
        requires
            self.offset + addend <= u64::MAX,
        ensures
            r.space == self.space,
            r.offset == self.offset + addend,
            r.size == new_size,
            r.name == (if self.space == AddressSpace::Register {
                spec_map_lookup(varnode_map.entries@, (self.offset + addend) as u64, new_size)
            } else {
                None
            }),
    {
        let new_offset = self.offset + addend;
        let new_name = if self.space == AddressSpace::Register {
            varnode_map.get(new_offset, new_size)
        } else {
            None
        };
        Varnode { name: new_name, space: self.space, offset: new_offset, size: new_size }
    }

    /// The printed form of the varnode.
    pub fn to_string(&self) -> (r: String)
        ensures
            r@ == spec_varnode_text(*self),
    {
        let mut s = String::new();
        match &self.name {
            Some(name) => {
                let cs = crate::text::chars_of(name.as_str());
                if cs.len() > 0 && cs[0] == '"' && cs[cs.len() - 1] == '"' {
                    push_str(&mut s, "\x1b[1;35m");
                } else {
                    push_str(&mut s, "\x1b[1;33m");
                }
                push_str(&mut s, name.as_str());
                push_str(&mut s, "\x1b[0m");
            },
            None => {
                match self.space {
                    AddressSpace::Unique => {
                        push_str(&mut s, "U");
                        push_hex(&mut s, self.offset);
                        push_str(&mut s, ":");
                        push_dec(&mut s, self.size);
                    },
                    AddressSpace::Const => {
                        push_str(&mut s, "\x1b[1;32m0x");
                        push_hex(&mut s, self.offset);
                        push_str(&mut s, "\x1b[0m");
                    },
                    AddressSpace::Register => {
                        push_str(&mut s, "R");
                        push_hex(&mut s, self.offset);
                        push_str(&mut s, ":");
                        push_dec(&mut s, self.size);
                    },
                    AddressSpace::Ram => {
                        push_str(&mut s, "[ram]0x");
                        push_hex(&mut s, self.offset);
                        push_str(&mut s, ":");
                        push_dec(&mut s, self.size);
                    },
                    AddressSpace::Stack => {
                        push_str(&mut s, "[stack]0x");
                        push_hex(&mut s, self.offset);
                        push_str(&mut s, ":");
                        push_dec(&mut s, self.size);
                    },
                    AddressSpace::Deref => {
                        push_str(&mut s, "[deref]0x");
                        push_hex(&mut s, self.offset);
                        push_str(&mut s, ":");
                        push_dec(&mut s, self.size);
                    },
                    AddressSpace::Dummy => {
                        push_str(&mut s, "DUMMY");
                    },
                }
            },
        }
        s
    }

    /// How the varnode is printed as a call target.
    pub fn call_target_string(&self) -> (r: String)
        ensures
            r@ == spec_call_target_text(*self),
    {
        match &self.name {
            Some(name) => name.clone(),
            None => {
                if self.space.is_ram() || self.space.is_const() {
                    let mut s = String::new();
                    push_str(&mut s, "\x1b[1m\x1b[38;5;208mFUN_");
                    push_hex(&mut s, self.offset);
                    push_str(&mut s, "\x1b[0m");
                    s
                } else {
                    self.to_string()
                }
            },
        }
    }
}

} // verus!
