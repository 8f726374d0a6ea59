use rust_sleigh::binary::{section_windows, text_sections};

fn put16(b: &mut Vec<u8>, v: u16) { b.extend_from_slice(&v.to_le_bytes()); }
fn put32(b: &mut Vec<u8>, v: u32) { b.extend_from_slice(&v.to_le_bytes()); }
fn put64(b: &mut Vec<u8>, v: u64) { b.extend_from_slice(&v.to_le_bytes()); }

fn section_header(b: &mut Vec<u8>, name: u32, kind: u32, flags: u64, addr: u64, off: u64, size: u64) {
    put32(b, name);
    put32(b, kind);
    put64(b, flags);
    put64(b, addr);
    put64(b, off);
    put64(b, size);
    put32(b, 0);
    put32(b, 0);
    put64(b, 1);
    put64(b, 0);
}

/// A relocatable x86-64 ELF file with a 4-byte `.text` section at address 0x1000.
fn tiny_elf() -> Vec<u8> {
    let mut b = vec![0x7f, b'E', b'L', b'F', 2, 1, 1, 0, 0, 0, 0, 0, 0, 0, 0, 0];
    put16(&mut b, 1);
    put16(&mut b, 0x3e);
    put32(&mut b, 1);
    put64(&mut b, 0);
    put64(&mut b, 0);
    put64(&mut b, 0x58);
    put32(&mut b, 0);
    put16(&mut b, 64);
    put16(&mut b, 0);
    put16(&mut b, 0);
    put16(&mut b, 64);
    put16(&mut b, 3);
    put16(&mut b, 2);
    assert_eq!(b.len(), 0x40);
    b.extend_from_slice(&[0x90, 0, 0, 0]);
    b.extend_from_slice(b"\0.text\0.shstrtab\0");
    while b.len() < 0x58 {
        b.push(0);
    }
    section_header(&mut b, 0, 0, 0, 0, 0, 0);
    section_header(&mut b, 1, 1, 6, 0x1000, 0x40, 4);
    section_header(&mut b, 7, 3, 0, 0, 0x44, 17);
    b
}

#[test]
fn code_sections_of_an_object_file() {
    let secs = text_sections(&tiny_elf()).expect("an object file");
    assert_eq!(secs, vec![(0x1000, 4, Some((0x40, 4)))]);
    assert!(text_sections(&[1, 2, 3, 4]).is_none());
}

#[test]
fn windows_over_code_sections() {
    let secs = vec![(0x1000, 0x100, Some((0x400, 0x100))), (0x2000, 0x10, None), (0x3000, 0x20, Some((0x600, 0x20)))];
    assert_eq!(section_windows(&secs, u64::MAX), Some(vec![(0x400, 0x500, 0x1000), (0x600, 0x620, 0x3000)]));
    assert_eq!(section_windows(&secs, 0x1010), Some(vec![(0x410, 0x500, 0x1010)]));
    assert_eq!(section_windows(&secs, 0x3008), Some(vec![(0x608, 0x620, 0x3008)]));
    assert_eq!(section_windows(&vec![(u64::MAX, 2, Some((0, 2)))], u64::MAX), None);
}
