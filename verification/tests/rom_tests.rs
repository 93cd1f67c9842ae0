use ironds_romtool::RomError;
use ironds_romtool::crc::crc16_range;
use ironds_romtool::header::{logo_bytes, parse_header, LOGO_CRC};
use ironds_romtool::layout::align4;
use ironds_romtool::rom::{build_rom, build_rom_from_images};
use ironds_romtool::exec_image::parse_exec;

/// One loadable segment for a synthetic executable image.
struct Seg {
    ptype: u32,
    addr: u32,
    data: Vec<u8>,
    memsz: u32,
}

fn seg(addr: u32, data: Vec<u8>) -> Seg {
    let memsz = data.len() as u32;
    Seg { ptype: 1, addr, data, memsz }
}

fn push_u16(out: &mut Vec<u8>, v: u16) {
    out.push((v & 0xFF) as u8);
    out.push((v >> 8) as u8);
}

fn push_u32(out: &mut Vec<u8>, v: u32) {
    out.push((v & 0xFF) as u8);
    out.push(((v >> 8) & 0xFF) as u8);
    out.push(((v >> 16) & 0xFF) as u8);
    out.push(((v >> 24) & 0xFF) as u8);
}

/// Builds a minimal 32-bit little-endian executable image with the
/// given entry point, machine tag, and segments.
fn make_exe(entry: u32, machine: u16, segs: &[Seg]) -> Vec<u8> {
    let phoff: u32 = 0x34;
    let phentsize: u16 = 0x20;
    let n = segs.len() as u16;
    let mut payload_off: u32 = phoff + (n as u32) * (phentsize as u32);
    let mut out: Vec<u8> = Vec::new();
    out.extend_from_slice(&[0x7F, 0x45, 0x4C, 0x46, 1, 1, 1, 0, 0, 0, 0, 0, 0, 0, 0, 0]);
    push_u16(&mut out, 2); // object type: executable
    push_u16(&mut out, machine);
    push_u32(&mut out, 1); // format version
    push_u32(&mut out, entry);
    push_u32(&mut out, phoff);
    push_u32(&mut out, 0); // section table offset
    push_u32(&mut out, 0); // flags
    push_u16(&mut out, 0x34); // file header size
    push_u16(&mut out, phentsize);
    push_u16(&mut out, n);
    push_u16(&mut out, 0); // section entry size
    push_u16(&mut out, 0); // section count
    push_u16(&mut out, 0); // string section index
    assert_eq!(out.len(), 0x34);
    for s in segs {
        push_u32(&mut out, s.ptype);
        push_u32(&mut out, payload_off);
        push_u32(&mut out, s.addr); // virtual address
        push_u32(&mut out, s.addr); // physical address
        push_u32(&mut out, s.data.len() as u32);
        push_u32(&mut out, s.memsz);
        push_u32(&mut out, 5); // permission flags
        push_u32(&mut out, 4); // alignment
        payload_off += s.data.len() as u32;
    }
    for s in segs {
        out.extend_from_slice(&s.data);
    }
    out
}

fn bytes_of(n: usize, seed: u8) -> Vec<u8> {
    let mut v = Vec::new();
    let mut x = seed;
    for _ in 0..n {
        v.push(x);
        x = x.wrapping_mul(31).wrapping_add(7);
    }
    v
}

#[test]
fn logo_checksum_matches_documented_value() {
    let logo = logo_bytes();
    assert_eq!(logo.len(), 156);
    assert_eq!(crc16_range(&logo, 0, logo.len()), 0xCF56);
    assert_eq!(LOGO_CRC, 0xCF56);
}

#[test]
fn crc16_known_check_value() {
    let data: Vec<u8> = vec![0x31, 0x32, 0x33, 0x34, 0x35, 0x36, 0x37, 0x38, 0x39];
    assert_eq!(crc16_range(&data, 0, data.len()), 0x4B37);
    let empty: Vec<u8> = Vec::new();
    assert_eq!(crc16_range(&empty, 0, 0), 0xFFFF);
}

#[test]
fn align4_all_residues() {
    assert_eq!(align4(0x4000), 0x4000);
    assert_eq!(align4(0x4001), 0x4004);
    assert_eq!(align4(0x4002), 0x4004);
    assert_eq!(align4(0x4003), 0x4004);
    assert_eq!(align4(0), 0);
}

#[test]
fn end_to_end_small_images() {
    let data9 = bytes_of(100, 3);
    let data7 = bytes_of(50, 11);
    let arm9 = make_exe(0x0200_0000, 0x28, &[seg(0x0200_0000, data9.clone())]);
    let arm7 = make_exe(0x0238_0000, 0x28, &[seg(0x0238_0000, data7.clone())]);
    let rom = build_rom(&arm9, &arm7).unwrap();
    assert_eq!(rom.len(), 0x8032);
    let info = parse_header(&rom).unwrap();
    assert_eq!(info.arm9_rom_offset, 0x4000);
    assert_eq!(info.arm9_entry, 0x0200_0000);
    assert_eq!(info.arm9_ram_addr, 0x0200_0000);
    assert_eq!(info.arm9_size, 100);
    assert_eq!(info.arm7_rom_offset, 0x8000);
    assert_eq!(info.arm7_entry, 0x0238_0000);
    assert_eq!(info.arm7_ram_addr, 0x0238_0000);
    assert_eq!(info.arm7_size, 50);
    assert_eq!(info.total_size, 0x8032);
    assert_eq!(&rom[0x4000..0x4064], &data9[..]);
    assert_eq!(&rom[0x8000..0x8032], &data7[..]);
    // Everything between the primary core's end and the secondary
    // core's offset is zero fill.
    assert!(rom[0x4064..0x8000].iter().all(|b| *b == 0));
}

#[test]
fn header_static_fields() {
    let arm9 = make_exe(0x0200_0000, 0x28, &[seg(0x0200_0000, bytes_of(16, 1))]);
    let arm7 = make_exe(0x0238_0000, 0x28, &[seg(0x0238_0000, bytes_of(16, 2))]);
    let rom = build_rom(&arm9, &arm7).unwrap();
    // Placeholder title and game code.
    assert_eq!(&rom[0x00..0x0C], b"HOMEBREW\0\0\0\0");
    assert_eq!(&rom[0x0C..0x10], b"####");
    assert_eq!(&rom[0x10..0x12], b"00");
    // Logo bitmap, its fixed checksum, and the header-size constant.
    assert_eq!(&rom[0xC0..0x15C], &logo_bytes()[..]);
    assert_eq!(&rom[0x15C..0x15E], &[0x56, 0xCF]);
    assert_eq!(&rom[0x84..0x88], &[0x00, 0x40, 0x00, 0x00]);
    // Reserved regions and the region between the header record and
    // the primary core stay zero.
    assert!(rom[0x88..0xC0].iter().all(|b| *b == 0));
    assert!(rom[0x160..0x4000].iter().all(|b| *b == 0));
}

#[test]
fn header_checksum_roundtrip() {
    let arm9 = make_exe(0x0200_0000, 0x28, &[seg(0x0200_0000, bytes_of(64, 9))]);
    let arm7 = make_exe(0x0238_0000, 0x28, &[seg(0x0238_0000, bytes_of(32, 4))]);
    let rom = build_rom(&arm9, &arm7).unwrap();
    let info = parse_header(&rom).unwrap();
    assert_eq!(info.header_checksum, crc16_range(&rom, 0, 0x15E));
}

#[test]
fn secure_area_checksum_covers_fixed_range() {
    // A primary core whose placed size exactly fills up to the
    // secondary floor: the checksum covers 0x8000 - 0x4000 bytes.
    let data9 = bytes_of(0x4000, 5);
    let arm9 = make_exe(0x0200_0000, 0x28, &[seg(0x0200_0000, data9.clone())]);
    let arm7 = make_exe(0x0238_0000, 0x28, &[seg(0x0238_0000, bytes_of(8, 6))]);
    let rom = build_rom(&arm9, &arm7).unwrap();
    let info = parse_header(&rom).unwrap();
    assert_eq!(info.arm9_rom_offset, 0x4000);
    assert_eq!(info.arm9_size, 0x4000);
    assert_eq!(info.arm7_rom_offset, 0x8000);
    assert_eq!(info.secure_checksum, crc16_range(&rom, 0x4000, 0x8000));
    assert_eq!(0x8000 - info.arm9_rom_offset as usize, 0x4000);
}

#[test]
fn secure_area_checksum_small_primary() {
    let arm9 = make_exe(0x0200_0000, 0x28, &[seg(0x0200_0000, bytes_of(12, 7))]);
    let arm7 = make_exe(0x0238_0000, 0x28, &[seg(0x0238_0000, bytes_of(8, 8))]);
    let rom = build_rom(&arm9, &arm7).unwrap();
    let info = parse_header(&rom).unwrap();
    assert_eq!(info.secure_checksum, crc16_range(&rom, 0x4000, 0x8000));
}

#[test]
fn gap_between_segments_is_zero_filled() {
    let a = bytes_of(4, 0x41);
    let b = bytes_of(4, 0x42);
    let arm9 = make_exe(
        0x0200_0000,
        0x28,
        &[seg(0x0200_0000, a.clone()), seg(0x0200_0010, b.clone())],
    );
    let arm7 = make_exe(0x0238_0000, 0x28, &[seg(0x0238_0000, bytes_of(8, 1))]);
    let rom = build_rom(&arm9, &arm7).unwrap();
    let info = parse_header(&rom).unwrap();
    assert_eq!(info.arm9_size, 0x14);
    assert_eq!(&rom[0x4000..0x4004], &a[..]);
    assert!(rom[0x4004..0x4010].iter().all(|x| *x == 0));
    assert_eq!(&rom[0x4010..0x4014], &b[..]);
}

#[test]
fn secondary_core_is_aligned_after_large_primary() {
    // The primary core runs past the secondary floor, so the
    // secondary core lands right after it, 4-byte aligned.
    let data9 = bytes_of(0x4001, 3);
    let arm9 = make_exe(0x0200_0000, 0x28, &[seg(0x0200_0000, data9)]);
    let arm7 = make_exe(0x0238_0000, 0x28, &[seg(0x0238_0000, bytes_of(8, 2))]);
    let rom = build_rom(&arm9, &arm7).unwrap();
    let info = parse_header(&rom).unwrap();
    assert_eq!(info.arm9_size, 0x4001);
    assert_eq!(info.arm7_rom_offset, 0x8004);
    assert_eq!(info.total_size, 0x800C);
    assert_eq!(rom.len(), 0x800C);
}

#[test]
fn overlapping_segments_fail() {
    // The second segment's target address falls strictly inside the
    // first's address range.
    let arm9 = make_exe(
        0x0200_0000,
        0x28,
        &[seg(0x0200_0000, bytes_of(0x20, 1)), seg(0x0200_0010, bytes_of(8, 2))],
    );
    let arm7 = make_exe(0x0238_0000, 0x28, &[seg(0x0238_0000, bytes_of(8, 3))]);
    assert_eq!(build_rom(&arm9, &arm7), Err(RomError::OverlappingSegments));
}

#[test]
fn descending_segments_fail() {
    let arm9 = make_exe(
        0x0200_0000,
        0x28,
        &[seg(0x0200_0100, bytes_of(8, 1)), seg(0x0200_0000, bytes_of(8, 2))],
    );
    let arm7 = make_exe(0x0238_0000, 0x28, &[seg(0x0238_0000, bytes_of(8, 3))]);
    assert_eq!(build_rom(&arm9, &arm7), Err(RomError::OverlappingSegments));
}

#[test]
fn malformed_inputs_fail() {
    let good = make_exe(0x0200_0000, 0x28, &[seg(0x0200_0000, bytes_of(8, 1))]);
    // Too short to hold the file header.
    assert_eq!(build_rom(&[0x7F, 0x45, 0x4C, 0x46], &good), Err(RomError::MalformedExecutable));
    // Bad magic number.
    let mut bad = good.clone();
    bad[0] = 0x7E;
    assert_eq!(build_rom(&bad, &good), Err(RomError::MalformedExecutable));
    // A segment whose payload runs past the end of the file.
    let mut truncated = good.clone();
    truncated.pop();
    assert_eq!(build_rom(&truncated, &good), Err(RomError::MalformedExecutable));
    // The secondary executable is checked after the primary.
    assert_eq!(build_rom(&good, &bad), Err(RomError::MalformedExecutable));
}

#[test]
fn wrong_architecture_fails() {
    let good = make_exe(0x0200_0000, 0x28, &[seg(0x0200_0000, bytes_of(8, 1))]);
    let wrong = make_exe(0x0200_0000, 0x03, &[seg(0x0200_0000, bytes_of(8, 1))]);
    assert_eq!(build_rom(&wrong, &good), Err(RomError::WrongArchitecture));
    assert_eq!(build_rom(&good, &wrong), Err(RomError::WrongArchitecture));
}

#[test]
fn no_loadable_segments_fail() {
    let good = make_exe(0x0200_0000, 0x28, &[seg(0x0200_0000, bytes_of(8, 1))]);
    // No program headers at all.
    let empty = make_exe(0x0200_0000, 0x28, &[]);
    assert_eq!(build_rom(&empty, &good), Err(RomError::NoLoadableSegments));
    // A non-loadable segment and a loadable one with zero memory size
    // are both skipped.
    let mut note = seg(0x0200_0000, bytes_of(8, 1));
    note.ptype = 4;
    let mut zero_mem = seg(0x0200_0100, bytes_of(8, 2));
    zero_mem.memsz = 0;
    let skipped = make_exe(0x0200_0000, 0x28, &[note, zero_mem]);
    assert_eq!(build_rom(&skipped, &good), Err(RomError::NoLoadableSegments));
}

#[test]
fn zero_size_segments_are_skipped() {
    // A zero-memory-size segment between two loadable segments does
    // not affect gap detection or placement.
    let a = bytes_of(4, 0x51);
    let b = bytes_of(4, 0x52);
    let mut bss = seg(0x0200_0004, Vec::new());
    bss.memsz = 0x100;
    let arm9 = make_exe(
        0x0200_0000,
        0x28,
        &[seg(0x0200_0000, a.clone()), bss, seg(0x0200_0004, b.clone())],
    );
    let arm7 = make_exe(0x0238_0000, 0x28, &[seg(0x0238_0000, bytes_of(8, 1))]);
    let rom = build_rom(&arm9, &arm7).unwrap();
    let info = parse_header(&rom).unwrap();
    assert_eq!(info.arm9_size, 8);
    assert_eq!(&rom[0x4000..0x4004], &a[..]);
    assert_eq!(&rom[0x4004..0x4008], &b[..]);
}

#[test]
fn image_too_large_fails() {
    // Two far-apart segments span almost the whole 32-bit address
    // space, so the total image cannot fit the 4-byte size field.
    let arm9 = make_exe(0x0200_0000, 0x28, &[seg(0x0200_0000, bytes_of(8, 1))]);
    let huge = make_exe(
        0x0000_0000,
        0x28,
        &[seg(0x0000_0000, bytes_of(4, 2)), seg(0xFFFF_FF00, bytes_of(8, 3))],
    );
    assert_eq!(build_rom(&arm9, &huge), Err(RomError::ImageTooLarge));
}

#[test]
fn entry_point_distinct_from_load_base() {
    // The entry point need not be the lowest segment address.
    let arm9 = make_exe(0x0200_0040, 0x28, &[seg(0x0200_0000, bytes_of(0x80, 1))]);
    let arm7 = make_exe(0x0238_0010, 0x28, &[seg(0x0238_0000, bytes_of(0x20, 2))]);
    let rom = build_rom(&arm9, &arm7).unwrap();
    let info = parse_header(&rom).unwrap();
    assert_eq!(info.arm9_entry, 0x0200_0040);
    assert_eq!(info.arm9_ram_addr, 0x0200_0000);
    assert_eq!(info.arm7_entry, 0x0238_0010);
    assert_eq!(info.arm7_ram_addr, 0x0238_0000);
}

#[test]
fn extractor_and_builder_compose() {
    let data9 = bytes_of(0x40, 1);
    let data7 = bytes_of(0x20, 2);
    let arm9 = make_exe(0x0200_0000, 0x28, &[seg(0x0200_0000, data9.clone())]);
    let arm7 = make_exe(0x0238_0000, 0x28, &[seg(0x0238_0000, data7.clone())]);
    let img9 = parse_exec(&arm9).unwrap();
    let img7 = parse_exec(&arm7).unwrap();
    assert_eq!(img9.entry, 0x0200_0000);
    assert_eq!(img9.segments.len(), 1);
    assert_eq!(img9.segments[0].addr, 0x0200_0000);
    assert_eq!(img9.segments[0].data, data9);
    let rom = build_rom_from_images(&img9, &img7).unwrap();
    assert_eq!(rom, build_rom(&arm9, &arm7).unwrap());
}
