//! The code sections of an object file, and the parts of them that lifting covers.
use vstd::prelude::*;
use object::{Object, ObjectSection, SectionKind};
use crate::disassembler::{section_window, spec_section_window};

verus! {

/// The sections of the object file that `data` holds, in order, each as whether it holds
/// code, its address, its size and where it lies in the file (offset and length), as
/// `object::File::parse` and `Object::sections` read them; `None` where the bytes are not
/// an object file the crate reads.
pub uninterp spec fn object_sections(data: Seq<u8>) -> Option<Seq<(bool, u64, u64, Option<(u64, u64)>)>>;

/// Parses an object file with `object::File::parse` and lists its sections
/// (`Object::sections`), each with whether its kind is `SectionKind::Text`, its `address`,
/// `size` and `file_range`. Claimed: the result is `object_sections` of the bytes, a
/// function of the bytes alone.
#[verifier::external_body]
fn parse_sections(data: &[u8]) -> (r: Option<Vec<(bool, u64, u64, Option<(u64, u64)>)>>)
    ensures
        match object_sections(data@) {
            Some(s) => r is Some && r->0@ == s,
            None => r is None,
        },
{
    let file = object::File::parse(data).ok()?;
    let mut out = Vec::new();
    for section in file.sections() {
        let code = match section.kind() {
            SectionKind::Text => true,
            _ => false,
        };
        out.push((code, section.address(), section.size(), section.file_range()));
    }
    Some(out)
}

/// The code sections among `s`, in order: address, size and file range.
pub open spec fn spec_code_sections(s: Seq<(bool, u64, u64, Option<(u64, u64)>)>) -> Seq<(u64, u64, Option<(u64, u64)>)>
    decreases s.len(),
{
    if s.len() == 0 {
        Seq::empty()
    } else {
        let rest = spec_code_sections(s.drop_last());
        let (code, addr, size, range) = s.last();
        if code {
            rest.push((addr, size, range))
        } else {
            rest
        }
    }
}

/// The code sections of the object file that `data` holds (see `spec_code_sections`);
/// `None` where the bytes are not an object file.
pub fn text_sections(data: &[u8]) -> (r: Option<Vec<(u64, u64, Option<(u64, u64)>)>>)
    ensures
        match object_sections(data@) {
            Some(s) => r is Some && r->0@ == spec_code_sections(s),
            None => r is None,
        },
{
    let all = match parse_sections(data) {
        Some(a) => a,
        None => return None,
    };
    let mut out: Vec<(u64, u64, Option<(u64, u64)>)> = Vec::new();
    let mut i: usize = 0;
    assert(all@.take(0) =~= Seq::<(bool, u64, u64, Option<(u64, u64)>)>::empty());
    while i < all.len()
        invariant
            i <= all@.len(),
            out@ == spec_code_sections(all@.take(i as int)),
        decreases all@.len() - i,
    {
        assert(all@.take(i + 1).drop_last() =~= all@.take(i as int));
        let (code, addr, size, range) = all[i];
        if code {
            out.push((addr, size, range));
        }
        i = i + 1;
    }
    assert(all@.take(all@.len() as int) =~= all@);
    Some(out)
}

/// Whether a code section at `addr` of `size` bytes, at file offset `off`, can be windowed
/// with the start address `start_addr` without an address or offset overflowing.
pub open spec fn spec_window_fits(addr: u64, size: u64, off: u64, start_addr: u64) -> bool {
    &&& addr + size <= u64::MAX
    &&& off + size <= u64::MAX
    &&& (start_addr != u64::MAX && addr <= start_addr < addr + size ==> start_addr + size <= u64::MAX)
}

/// The windows that lifting covers over the code sections from `i` on (see
/// `spec_section_window`), each as the file range and the address of its first byte. A
/// section without a file range, or one that the start address leaves out, gives none; the
/// start address moves past each window it opens. `None` where an address or offset would
/// overflow.
pub open spec fn spec_windows(secs: Seq<(u64, u64, Option<(u64, u64)>)>, i: int, start_addr: u64) -> Option<Seq<(u64, u64, u64)>>
    decreases secs.len() - i,
{
    if i < 0 || i >= secs.len() {
        Some(Seq::empty())
    } else {
        let (addr, size, range) = secs[i];
        match range {
            None => spec_windows(secs, i + 1, start_addr),
            Some((off, _)) => if !spec_window_fits(addr, size, off, start_addr) {
                None
            } else {
                match spec_section_window(addr, size, off, start_addr) {
                    None => spec_windows(secs, i + 1, start_addr),
                    Some((s, e, a, next)) => match spec_windows(secs, i + 1, next) {
                        Some(rest) => Some(seq![(s, e, a)] + rest),
                        None => None,
                    },
                }
            },
        }
    }
}

fn windows_from(secs: &Vec<(u64, u64, Option<(u64, u64)>)>, i: usize, start_addr: u64) -> (r: Option<Vec<(u64, u64, u64)>>)
    requires
        i <= secs@.len(),
    ensures
        match spec_windows(secs@, i as int, start_addr) {
            Some(w) => r is Some && r->0@ == w,
            None => r is None,
        },
    decreases secs@.len() - i,
{
    if i >= secs.len() {
        return Some(Vec::new());
    }
    let (addr, size, range) = secs[i];
    match range {
        None => windows_from(secs, i + 1, start_addr),
        Some((off, _)) => {
            if addr > u64::MAX - size || off > u64::MAX - size {
                return None;
            }
            if start_addr != u64::MAX && addr <= start_addr && start_addr < addr + size && start_addr > u64::MAX - size {
                return None;
            }
            match section_window(addr, size, off, start_addr) {
                None => windows_from(secs, i + 1, start_addr),
                Some((s, e, a, next)) => match windows_from(secs, i + 1, next) {
                    Some(mut rest) => {
                        let mut v: Vec<(u64, u64, u64)> = Vec::new();
                        v.push((s, e, a));
                        v.append(&mut rest);
                        assert(v@ =~= seq![(s, e, a)] + spec_windows(secs@, i + 1, next)->0);
                        Some(v)
                    },
                    None => None,
                },
            }
        },
    }
}

/// The windows that lifting covers over the code sections `secs`, starting at
/// `start_addr` (`u64::MAX` for the start of each section), as `spec_windows` states.
pub fn section_windows(secs: &Vec<(u64, u64, Option<(u64, u64)>)>, start_addr: u64) -> (r: Option<Vec<(u64, u64, u64)>>)
    ensures
        match spec_windows(secs@, 0, start_addr) {
            Some(w) => r is Some && r->0@ == w,
            None => r is None,
        },
{
    windows_from(secs, 0, start_addr)
}

} // verus!
