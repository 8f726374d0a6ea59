//! Sequence numbers: the position of a p-code op inside the instruction at an address.
use vstd::prelude::*;
use super::address::{Address, AddressSpace, spec_address_of_text, lemma_address_text_roundtrip};
use crate::text::{push_char, push_dec_signed, spec_hex, spec_dec, spec_dec_signed};
use crate::text::chars_of;
use crate::utils::{spec_radix_value, digit_value, lemma_radix_value_prefix, from_str_radix_chars, lemma_digits_value, lemma_value_all_digits};

verus! {

/// The address of an instruction and the index of an op in it.
#[derive(PartialEq, Eq, Structural, Hash, Copy, Clone, Debug)]
pub struct SeqNum {
    pub pc: Address,
    pub uniq: i32,
}

impl Default for SeqNum {
    fn default() -> (r: SeqNum)
        ensures
            r == (SeqNum { pc: Address { space: AddressSpace::Dummy, offset: 0 }, uniq: 0 }),
    {
        SeqNum { pc: Address { space: AddressSpace::Dummy, offset: 0 }, uniq: 0 }
    }
}

/// What `i32::from_str` yields: an optional sign, then at least one decimal digit, and a value
/// in range.
pub open spec fn spec_parse_i32(s: Seq<char>) -> Option<i32> {
    if s.len() == 0 || ((s[0] == '+' || s[0] == '-') && s.len() == 1) {
        None
    } else {
        let neg = s[0] == '-';
        let ds = if s[0] == '-' || s[0] == '+' {
            s.drop_first()
        } else {
            s
        };
        match spec_radix_value(ds, 10) {
            Some(v) => if neg && v <= 0x8000_0000 {
                Some((-v) as i32)
            } else if !neg && v <= 0x7fff_ffff {
                Some(v as i32)
            } else {
                None
            },
            None => None,
        }
    }
}

/// The sequence number written `0x<hex address>:<index>`.
pub open spec fn spec_seqnum_of_text(s: Seq<char>) -> Option<SeqNum> {
    if exists|i: int| 0 <= i < s.len() && s[i] == ':' {
        let i = choose|i: int|
            0 <= i < s.len() && s[i] == ':' && forall|j: int| 0 <= j < i ==> s[j] != ':';
        match (spec_address_of_text(s.take(i)), spec_parse_i32(s.skip(i + 1))) {
            (Some(a), Some(u)) => Some(SeqNum { pc: a, uniq: u }),
            _ => None,
        }
    } else {
        None
    }
}

/// The sequence number after this one (same address, next index).
pub open spec fn spec_next(s: SeqNum) -> SeqNum {
    SeqNum { pc: s.pc, uniq: (s.uniq + 1) as i32 }
}

/// The sequence number before this one (same address, previous index).
pub open spec fn spec_prev(s: SeqNum) -> SeqNum {
    SeqNum { pc: s.pc, uniq: (s.uniq - 1) as i32 }
}

/// `i32::from_str` on the characters `s[start..]`.
pub fn parse_i32_chars(s: &[char], start: usize) -> (r: Option<i32>)
    requires
        start <= s@.len(),
    ensures
        r == spec_parse_i32(s@.skip(start as int)),
{
    let ghost t = s@.skip(start as int);
    if start == s.len() || ((s[start] == '+' || s[start] == '-') && start + 1 == s.len()) {
        return None;
    }
    let neg = s[start] == '-';
    let first = if s[start] == '-' || s[start] == '+' {
        start + 1
    } else {
        start
    };
    let ghost ds = s@.skip(first as int);
    assert(ds =~= (if t[0] == '-' || t[0] == '+' { t.drop_first() } else { t }));
    if s[first] == '+' {
        assert(digit_value(ds[0], 10) is None);
        assert(ds.take(1).drop_last() =~= ds.take(0));
        assert(ds.take(1).last() == ds[0]);
        assert(spec_radix_value(ds.take(1), 10) is None);
        proof {
            if spec_radix_value(ds, 10) is Some {
                lemma_radix_value_prefix(ds, 10, 1);
            }
        }
        return None;
    }
    match from_str_radix_chars(s, first, 10) {
        Some(v) => {
            if neg && v <= 0x8000_0000 {
                if v == 0x8000_0000 {
                    Some(i32::MIN)
                } else {
                    Some(-(v as i32))
                }
            } else if !neg && v <= 0x7fff_ffff {
                Some(v as i32)
            } else {
                None
            }
        },
        None => None,
    }
}

impl SeqNum {
    /// The first sequence number at the ram address `off`.
    pub fn at(off: u64) -> (r: SeqNum)
        ensures
            r.pc == (Address { space: AddressSpace::Ram, offset: off }),
            r.uniq == 0,
    {
        SeqNum { pc: Address::ram(off), uniq: 0 }
    }

    /// The sequence number written `0x<hex address>:<index>`, or `None` where the text is not of
    /// that form.
    pub fn from_text(s: &str) -> (r: Option<SeqNum>)
        ensures
            r == spec_seqnum_of_text(s@),
    {
        let v = chars_of(s);
        let mut i: usize = 0;
        while i < v.len() && v[i] != ':'
            invariant
                i <= v@.len(),
                forall|j: int| 0 <= j < i ==> v@[j] != ':',
            decreases v@.len() - i,
        {
            i = i + 1;
        }
        if i == v.len() {
            return None;
        }
        let ghost k = choose|k: int|
            0 <= k < v@.len() && v@[k] == ':' && forall|j: int| 0 <= j < k ==> v@[j] != ':';
        assert(k == i) by {
            if k < i {
                assert(v@[k] != ':');
            }
            if i < k {
                assert(v@[i as int] != ':');
            }
        }
        let head = crate::text::string_of_range(v.as_slice(), 0, i);
        assert(v@.subrange(0, i as int) =~= v@.take(i as int));
        let pc = Address::from_hex_text(head.as_str());
        let uniq = parse_i32_chars(v.as_slice(), i + 1);
        match (pc, uniq) {
            (Some(a), Some(u)) => Some(SeqNum { pc: a, uniq: u }),
            _ => None,
        }
    }

    /// The sequence number just before this one, at the same address.
    pub fn prev(&self) -> (r: SeqNum)
        requires
            self.uniq > i32::MIN,
        ensures
            r == spec_prev(*self),
    {
        SeqNum { pc: self.pc, uniq: self.uniq - 1 }
    }

    /// The sequence number just after this one, at the same address.
    pub fn next(&self) -> (r: SeqNum)
        requires
            self.uniq < i32::MAX,
        ensures
            r == spec_next(*self),
    {
        SeqNum { pc: self.pc, uniq: self.uniq + 1 }
    }

    /// The sequence number `off` further on, at the same address.
    pub fn offset_by(&self, off: i32) -> (r: SeqNum)
        requires
            i32::MIN <= self.uniq + off <= i32::MAX,
        ensures
            r.pc == self.pc,
            r.uniq == self.uniq + off,
    {
        SeqNum { pc: self.pc, uniq: self.uniq + off }
    }

    /// Whether this sequence number comes before `other`: by address offset, then by index.
    pub fn lt(&self, other: &SeqNum) -> (r: bool)
        ensures
            r == (self.pc.offset < other.pc.offset || (self.pc.offset == other.pc.offset
                && self.uniq < other.uniq)),
    {
        self.pc.offset < other.pc.offset || (self.pc.offset == other.pc.offset && self.uniq
            < other.uniq)
    }

    /// The printed form `0x<hex address>:<index>`.
    pub fn to_string(&self) -> (r: String)
        ensures
            r@ == "0x"@ + spec_hex(self.pc.offset as nat) + seq![':'] + spec_dec_signed(
                self.uniq as int,
            ),
    {
        let mut s = self.pc.to_string();
        push_char(&mut s, ':');
        push_dec_signed(&mut s, self.uniq as i64);
        assert(("0x"@ + spec_hex(self.pc.offset as nat)).push(':') =~= "0x"@ + spec_hex(
            self.pc.offset as nat,
        ) + seq![':']);
        s
    }
}

/// Reading back the text of a sequence number gives the sequence number at the ram address
/// of the same offset.
pub proof fn lemma_seqnum_text_roundtrip(s: SeqNum)
    ensures
        spec_seqnum_of_text("0x"@ + spec_hex(s.pc.offset as nat) + seq![':'] + spec_dec_signed(s.uniq as int))
            == Some(SeqNum { pc: Address { space: AddressSpace::Ram, offset: s.pc.offset }, uniq: s.uniq }),
{
    reveal_strlit("0x");
    let h = spec_hex(s.pc.offset as nat);
    let d = spec_dec_signed(s.uniq as int);
    let t = "0x"@ + h + seq![':'] + d;
    let i: int = (h.len() + 2) as int;
    lemma_digits_value(s.pc.offset as nat, 16);
    lemma_value_all_digits(h, 16);
    assert(t[i] == ':');
    assert forall|j: int| 0 <= j < i implies t[j] != ':' by {
        if j >= 2 {
            assert(t[j] == h[j - 2]);
            assert(digit_value(h[j - 2], 16) is Some);
        }
    }
    let c = choose|c: int| 0 <= c < t.len() && t[c] == ':' && forall|j: int| 0 <= j < c ==> t[j] != ':';
    assert(c == i) by {
        if c < i {
            assert(t[c] != ':');
        } else if c > i {
            assert(t[i] != ':');
        }
    }
    assert(t.take(i) =~= "0x"@ + h);
    lemma_address_text_roundtrip(s.pc);
    assert(t.skip(i + 1) =~= d);
    if s.uniq < 0 {
        let m = (-(s.uniq as int)) as nat;
        lemma_digits_value(m, 10);
        assert(d =~= seq!['-'] + spec_dec(m));
        assert(d.drop_first() =~= spec_dec(m));
    } else {
        lemma_digits_value(s.uniq as nat, 10);
        lemma_value_all_digits(d, 10);
        assert(digit_value(d[0], 10) is Some);
    }
}

/// Moving one step on and then one step back gives back the sequence number, and so does the
/// reverse.
pub proof fn lemma_next_prev(s: SeqNum)
    ensures
        s.uniq < i32::MAX ==> spec_prev(spec_next(s)) == s,
        s.uniq > i32::MIN ==> spec_next(spec_prev(s)) == s,
{
}

} // verus!
