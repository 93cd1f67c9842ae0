//! The fixed-layout binary header record at the start of the ROM
//! image: field order and widths are the wire contract the console's
//! boot ROM validates. All multi-byte fields are little-endian; all
//! reserved regions are zero-filled.

use vstd::prelude::*;
use crate::bytes::{seq_zeros, u16_le_seq, u32_le_seq, le16_at, le32_at, push_zeros, push_bytes,
    push_u16_le, push_u32_le, read_u16_at, read_u32_at};
use crate::crc::{crc16_spec, crc16_range};

verus! {

/// Number of bytes of defined header fields that are written to the
/// file, debug fields included.
pub const HEADER_BYTES: usize = 0x16C;

/// File offset of the header's self-checksum field; the checksum
/// covers every byte before it.
pub const HEADER_CRC_OFFSET: usize = 0x15E;

/// The documented checksum of the boot-logo bitmap.
pub const LOGO_CRC: u16 = 0xCF56;

/// The fixed-size header record. Fields are written to the file in
/// declaration order at the offsets the console mandates.
pub struct RomHeader {
    pub title: Vec<u8>,
    pub game_code: Vec<u8>,
    pub maker_code: u16,
    pub unit_code: u8,
    pub seed_select: u8,
    pub capacity: u8,
    pub region: u8,
    pub version: u8,
    pub autostart: u8,
    pub arm9_rom_offset: u32,
    pub arm9_entry: u32,
    pub arm9_ram_addr: u32,
    pub arm9_size: u32,
    pub arm7_rom_offset: u32,
    pub arm7_entry: u32,
    pub arm7_ram_addr: u32,
    pub arm7_size: u32,
    pub fnt_offset: u32,
    pub fnt_size: u32,
    pub fat_offset: u32,
    pub fat_size: u32,
    pub arm9_overlay_offset: u32,
    pub arm9_overlay_size: u32,
    pub arm7_overlay_offset: u32,
    pub arm7_overlay_size: u32,
    pub card_control_normal: u32,
    pub card_control_secure: u32,
    pub icon_title_offset: u32,
    pub secure_checksum: u16,
    pub secure_delay: u16,
    pub arm9_autoload_hook: u32,
    pub arm7_autoload_hook: u32,
    pub total_size: u32,
    pub header_size: u32,
    pub logo: Vec<u8>,
    pub logo_checksum: u16,
    pub header_checksum: u16,
}

impl RomHeader {
    /// The variable-length fields have their mandated widths.
    pub open spec fn wf(self) -> bool {
        &&& self.title@.len() == 12
        &&& self.game_code@.len() == 4
        &&& self.logo@.len() == 156
    }
}

/// The boot-logo bitmap the console's boot ROM validates, as a byte
/// sequence. Its CRC-16 is the documented value 0xCF56.
pub open spec fn logo_seq() -> Seq<u8> {
    seq![
        0x24u8, 0xFF, 0xAE, 0x51, 0x69, 0x9A, 0xA2, 0x21,
        0x3D, 0x84, 0x82, 0x0A, 0x84, 0xE4, 0x09, 0xAD,
        0x11, 0x24, 0x8B, 0x98, 0xC0, 0x81, 0x7F, 0x21,
        0xA3, 0x52, 0xBE, 0x19, 0x93, 0x09, 0xCE, 0x20,
        0x10, 0x46, 0x4A, 0x4A, 0xF8, 0x27, 0x31, 0xEC,
        0x58, 0xC7, 0xE8, 0x33, 0x82, 0xE3, 0xCE, 0xBF,
        0x85, 0xF4, 0xDF, 0x94, 0xCE, 0x4B, 0x09, 0xC1,
        0x94, 0x56, 0x8A, 0xC0, 0x13, 0x72, 0xA7, 0xFC,
        0x9F, 0x84, 0x4D, 0x73, 0xA3, 0xCA, 0x9A, 0x61,
        0x58, 0x97, 0xA3, 0x27, 0xFC, 0x03, 0x98, 0x76,
        0x23, 0x1D, 0xC7, 0x61, 0x03, 0x04, 0xAE, 0x56,
        0xBF, 0x38, 0x84, 0x00, 0x40, 0xA7, 0x0E, 0xFD,
        0xFF, 0x52, 0xFE, 0x03, 0x6F, 0x95, 0x30, 0xF1,
        0x97, 0xFB, 0xC0, 0x85, 0x60, 0xD6, 0x80, 0x25,
        0xA9, 0x63, 0xBE, 0x03, 0x01, 0x4E, 0x38, 0xE2,
        0xF9, 0xA2, 0x34, 0xFF, 0xBB, 0x3E, 0x03, 0x44,
        0x78, 0x00, 0x90, 0xCB, 0x88, 0x11, 0x3A, 0x94,
        0x65, 0xC0, 0x7C, 0x63, 0x87, 0xF0, 0x3C, 0xAF,
        0xD6, 0x25, 0xE4, 0x8B, 0x38, 0x0A, 0xAC, 0x72,
        0x21, 0xD4, 0xF8, 0x07,
    ]
}

/// The default title placeholder.
pub open spec fn default_title_seq() -> Seq<u8> {
    seq![0x48u8, 0x4F, 0x4D, 0x45, 0x42, 0x52, 0x45, 0x57, 0x00, 0x00, 0x00, 0x00]
}

/// The default game-code placeholder.
pub open spec fn default_game_code_seq() -> Seq<u8> {
    seq![0x23u8, 0x23, 0x23, 0x23]
}

/// Builds the boot-logo bitmap.
pub fn logo_bytes() -> (r: Vec<u8>)
    ensures
        r@ == logo_seq(),
{
    let a: [u8; 156] = [
        0x24u8, 0xFF, 0xAE, 0x51, 0x69, 0x9A, 0xA2, 0x21,
        0x3D, 0x84, 0x82, 0x0A, 0x84, 0xE4, 0x09, 0xAD,
        0x11, 0x24, 0x8B, 0x98, 0xC0, 0x81, 0x7F, 0x21,
        0xA3, 0x52, 0xBE, 0x19, 0x93, 0x09, 0xCE, 0x20,
        0x10, 0x46, 0x4A, 0x4A, 0xF8, 0x27, 0x31, 0xEC,
        0x58, 0xC7, 0xE8, 0x33, 0x82, 0xE3, 0xCE, 0xBF,
        0x85, 0xF4, 0xDF, 0x94, 0xCE, 0x4B, 0x09, 0xC1,
        0x94, 0x56, 0x8A, 0xC0, 0x13, 0x72, 0xA7, 0xFC,
        0x9F, 0x84, 0x4D, 0x73, 0xA3, 0xCA, 0x9A, 0x61,
        0x58, 0x97, 0xA3, 0x27, 0xFC, 0x03, 0x98, 0x76,
        0x23, 0x1D, 0xC7, 0x61, 0x03, 0x04, 0xAE, 0x56,
        0xBF, 0x38, 0x84, 0x00, 0x40, 0xA7, 0x0E, 0xFD,
        0xFF, 0x52, 0xFE, 0x03, 0x6F, 0x95, 0x30, 0xF1,
        0x97, 0xFB, 0xC0, 0x85, 0x60, 0xD6, 0x80, 0x25,
        0xA9, 0x63, 0xBE, 0x03, 0x01, 0x4E, 0x38, 0xE2,
        0xF9, 0xA2, 0x34, 0xFF, 0xBB, 0x3E, 0x03, 0x44,
        0x78, 0x00, 0x90, 0xCB, 0x88, 0x11, 0x3A, 0x94,
        0x65, 0xC0, 0x7C, 0x63, 0x87, 0xF0, 0x3C, 0xAF,
        0xD6, 0x25, 0xE4, 0x8B, 0x38, 0x0A, 0xAC, 0x72,
        0x21, 0xD4, 0xF8, 0x07,
    ];
    proof {
        assert(a@ =~= logo_seq());
    }
    let mut v: Vec<u8> = Vec::new();
    let mut i: usize = 0;
    while i < 156
        invariant
            i <= 156,
            a@ == logo_seq(),
            v@ == logo_seq().take(i as int),
        decreases 156 - i,
    {
        v.push(a[i]);
        i = i + 1;
        proof {
            assert(v@ =~= logo_seq().take(i as int));
        }
    }
    proof {
        assert(v@ =~= logo_seq());
    }
    v
}

/// Header bytes 0x00..0x20: identification and one-byte flags.
pub open spec fn chunk_ident(h: RomHeader) -> Seq<u8> {
    h.title@ + h.game_code@ + u16_le_seq(h.maker_code) + seq![
        h.unit_code,
        h.seed_select,
        h.capacity,
    ] + seq_zeros(7) + seq_zeros(1) + seq![h.region, h.version, h.autostart]
}

/// Header bytes 0x20..0x40: both cores' placement records, primary
/// first: rom offset, entry address, ram address, byte size.
pub open spec fn chunk_cores(h: RomHeader) -> Seq<u8> {
    u32_le_seq(h.arm9_rom_offset) + u32_le_seq(h.arm9_entry) + u32_le_seq(h.arm9_ram_addr)
        + u32_le_seq(h.arm9_size) + u32_le_seq(h.arm7_rom_offset) + u32_le_seq(h.arm7_entry)
        + u32_le_seq(h.arm7_ram_addr) + u32_le_seq(h.arm7_size)
}

/// Header bytes 0x40..0x80: file tables, overlays, card timing words,
/// icon offset, secure-area checksum and delay, auto-load hooks, and
/// the zeroed secure-area-disable field.
pub open spec fn chunk_tables(h: RomHeader) -> Seq<u8> {
    u32_le_seq(h.fnt_offset) + u32_le_seq(h.fnt_size) + u32_le_seq(h.fat_offset) + u32_le_seq(
        h.fat_size,
    ) + u32_le_seq(h.arm9_overlay_offset) + u32_le_seq(h.arm9_overlay_size) + u32_le_seq(
        h.arm7_overlay_offset,
    ) + u32_le_seq(h.arm7_overlay_size) + u32_le_seq(h.card_control_normal) + u32_le_seq(
        h.card_control_secure,
    ) + u32_le_seq(h.icon_title_offset) + u16_le_seq(h.secure_checksum) + u16_le_seq(
        h.secure_delay,
    ) + u32_le_seq(h.arm9_autoload_hook) + u32_le_seq(h.arm7_autoload_hook) + seq_zeros(8)
}

/// Header bytes 0x80..0xC0: total image size, header-size constant,
/// and reserved regions.
pub open spec fn chunk_sizes(h: RomHeader) -> Seq<u8> {
    u32_le_seq(h.total_size) + u32_le_seq(h.header_size) + seq_zeros(4) + seq_zeros(8)
        + seq_zeros(4) + seq_zeros(24) + seq_zeros(16)
}

/// Header bytes 0xC0..0x15E: the logo bitmap and its checksum.
pub open spec fn chunk_logo(h: RomHeader) -> Seq<u8> {
    h.logo@ + u16_le_seq(h.logo_checksum)
}

/// Every header byte before the self-checksum field.
pub open spec fn header_pre_seq(h: RomHeader) -> Seq<u8> {
    chunk_ident(h) + chunk_cores(h) + chunk_tables(h) + chunk_sizes(h) + chunk_logo(h)
}

/// The full serialized header record: the bytes before the
/// self-checksum, the self-checksum, and the three zeroed debug
/// fields.
pub open spec fn header_seq(h: RomHeader) -> Seq<u8> {
    header_pre_seq(h) + u16_le_seq(h.header_checksum) + seq_zeros(12)
}

/// Serializes the header record to its exact wire form, field by
/// field, with no padding between fields.
pub fn serialize_header(h: &RomHeader) -> (r: Vec<u8>)
    requires
        h.wf(),
    ensures
        r@ == header_seq(*h),
{
    let mut out: Vec<u8> = Vec::new();
    push_bytes(&mut out, &h.title);
    push_bytes(&mut out, &h.game_code);
    push_u16_le(&mut out, h.maker_code);
    out.push(h.unit_code);
    out.push(h.seed_select);
    out.push(h.capacity);
    push_zeros(&mut out, 7);
    push_zeros(&mut out, 1);
    out.push(h.region);
    out.push(h.version);
    out.push(h.autostart);
    proof {
        assert(out@ =~= chunk_ident(*h));
    }
    push_u32_le(&mut out, h.arm9_rom_offset);
    push_u32_le(&mut out, h.arm9_entry);
    push_u32_le(&mut out, h.arm9_ram_addr);
    push_u32_le(&mut out, h.arm9_size);
    push_u32_le(&mut out, h.arm7_rom_offset);
    push_u32_le(&mut out, h.arm7_entry);
    push_u32_le(&mut out, h.arm7_ram_addr);
    push_u32_le(&mut out, h.arm7_size);
    proof {
        assert(out@ =~= chunk_ident(*h) + chunk_cores(*h));
    }
    push_u32_le(&mut out, h.fnt_offset);
    push_u32_le(&mut out, h.fnt_size);
    push_u32_le(&mut out, h.fat_offset);
    push_u32_le(&mut out, h.fat_size);
    push_u32_le(&mut out, h.arm9_overlay_offset);
    push_u32_le(&mut out, h.arm9_overlay_size);
    push_u32_le(&mut out, h.arm7_overlay_offset);
    push_u32_le(&mut out, h.arm7_overlay_size);
    push_u32_le(&mut out, h.card_control_normal);
    push_u32_le(&mut out, h.card_control_secure);
    push_u32_le(&mut out, h.icon_title_offset);
    push_u16_le(&mut out, h.secure_checksum);
    push_u16_le(&mut out, h.secure_delay);
    push_u32_le(&mut out, h.arm9_autoload_hook);
    push_u32_le(&mut out, h.arm7_autoload_hook);
    push_zeros(&mut out, 8);
    proof {
        assert(out@ =~= chunk_ident(*h) + chunk_cores(*h) + chunk_tables(*h));
    }
    push_u32_le(&mut out, h.total_size);
    push_u32_le(&mut out, h.header_size);
    push_zeros(&mut out, 4);
    push_zeros(&mut out, 8);
    push_zeros(&mut out, 4);
    push_zeros(&mut out, 24);
    push_zeros(&mut out, 16);
    proof {
        assert(out@ =~= chunk_ident(*h) + chunk_cores(*h) + chunk_tables(*h) + chunk_sizes(*h));
    }
    push_bytes(&mut out, &h.logo);
    push_u16_le(&mut out, h.logo_checksum);
    proof {
        assert(out@ =~= header_pre_seq(*h));
    }
    push_u16_le(&mut out, h.header_checksum);
    push_zeros(&mut out, 12);
    proof {
        assert(out@ =~= header_seq(*h));
    }
    out
}

/// Builds the header record with the static defaults: placeholder
/// title and game code, safe card timing words, the compiled-in logo
/// and its checksum, and the fixed header-size constant. Every
/// placement, checksum, and size field starts at zero.
pub fn base_header() -> (h: RomHeader)
    ensures
        h.wf(),
        h.title@ == default_title_seq(),
        h.game_code@ == default_game_code_seq(),
        h.maker_code == 0x3030,
        h.unit_code == 0,
        h.seed_select == 0,
        h.capacity == 0,
        h.region == 0,
        h.version == 0,
        h.autostart == 0,
        h.arm9_rom_offset == 0 && h.arm9_entry == 0 && h.arm9_ram_addr == 0 && h.arm9_size == 0,
        h.arm7_rom_offset == 0 && h.arm7_entry == 0 && h.arm7_ram_addr == 0 && h.arm7_size == 0,
        h.fnt_offset == 0 && h.fnt_size == 0 && h.fat_offset == 0 && h.fat_size == 0,
        h.arm9_overlay_offset == 0 && h.arm9_overlay_size == 0,
        h.arm7_overlay_offset == 0 && h.arm7_overlay_size == 0,
        h.card_control_normal == 0x0058_6000,
        h.card_control_secure == 0x0018_08F8,
        h.icon_title_offset == 0,
        h.secure_checksum == 0,
        h.secure_delay == 0x051E,
        h.arm9_autoload_hook == 0 && h.arm7_autoload_hook == 0,
        h.total_size == 0,
        h.header_size == 0x4000,
        h.logo@ == logo_seq(),
        h.logo_checksum == LOGO_CRC,
        h.header_checksum == 0,
{
    let ta: [u8; 12] = [0x48, 0x4F, 0x4D, 0x45, 0x42, 0x52, 0x45, 0x57, 0x00, 0x00, 0x00, 0x00];
    let ca: [u8; 4] = [0x23, 0x23, 0x23, 0x23];
    let mut title: Vec<u8> = Vec::new();
    let mut i: usize = 0;
    while i < 12
        invariant
            i <= 12,
            ta@ == default_title_seq(),
            title@ == default_title_seq().take(i as int),
        decreases 12 - i,
    {
        title.push(ta[i]);
        i = i + 1;
        proof {
            assert(title@ =~= default_title_seq().take(i as int));
        }
    }
    proof {
        assert(ta@ =~= default_title_seq());
        assert(title@ =~= default_title_seq());
    }
    let mut game_code: Vec<u8> = Vec::new();
    let mut i: usize = 0;
    while i < 4
        invariant
            i <= 4,
            ca@ == default_game_code_seq(),
            game_code@ == default_game_code_seq().take(i as int),
        decreases 4 - i,
    {
        game_code.push(ca[i]);
        i = i + 1;
        proof {
            assert(game_code@ =~= default_game_code_seq().take(i as int));
        }
    }
    proof {
        assert(ca@ =~= default_game_code_seq());
        assert(game_code@ =~= default_game_code_seq());
    }
    RomHeader {
        title,
        game_code,
        maker_code: 0x3030,
        unit_code: 0,
        seed_select: 0,
        capacity: 0,
        region: 0,
        version: 0,
        autostart: 0,
        arm9_rom_offset: 0,
        arm9_entry: 0,
        arm9_ram_addr: 0,
        arm9_size: 0,
        arm7_rom_offset: 0,
        arm7_entry: 0,
        arm7_ram_addr: 0,
        arm7_size: 0,
        fnt_offset: 0,
        fnt_size: 0,
        fat_offset: 0,
        fat_size: 0,
        arm9_overlay_offset: 0,
        arm9_overlay_size: 0,
        arm7_overlay_offset: 0,
        arm7_overlay_size: 0,
        card_control_normal: 0x0058_6000,
        card_control_secure: 0x0018_08F8,
        icon_title_offset: 0,
        secure_checksum: 0,
        secure_delay: 0x051E,
        arm9_autoload_hook: 0,
        arm7_autoload_hook: 0,
        total_size: 0,
        header_size: 0x4000,
        logo: logo_bytes(),
        logo_checksum: LOGO_CRC,
        header_checksum: 0,
    }
}

/// Where each field lies in the serialized header: the byte ranges of
/// the placement records, the checksums, the sizes, and the logo.
#[verifier::rlimit(100)]
pub proof fn lemma_header_layout(h: RomHeader)
    requires
        h.wf(),
    ensures
        header_seq(h).len() == HEADER_BYTES,
        header_seq(h).subrange(0x00, 0x15E) == header_pre_seq(h),
        header_seq(h).subrange(0x00, 0x0C) == h.title@,
        header_seq(h).subrange(0x0C, 0x10) == h.game_code@,
        header_seq(h).subrange(0x10, 0x12) == u16_le_seq(h.maker_code),
        header_seq(h).subrange(0x20, 0x24) == u32_le_seq(h.arm9_rom_offset),
        header_seq(h).subrange(0x24, 0x28) == u32_le_seq(h.arm9_entry),
        header_seq(h).subrange(0x28, 0x2C) == u32_le_seq(h.arm9_ram_addr),
        header_seq(h).subrange(0x2C, 0x30) == u32_le_seq(h.arm9_size),
        header_seq(h).subrange(0x30, 0x34) == u32_le_seq(h.arm7_rom_offset),
        header_seq(h).subrange(0x34, 0x38) == u32_le_seq(h.arm7_entry),
        header_seq(h).subrange(0x38, 0x3C) == u32_le_seq(h.arm7_ram_addr),
        header_seq(h).subrange(0x3C, 0x40) == u32_le_seq(h.arm7_size),
        header_seq(h).subrange(0x60, 0x64) == u32_le_seq(h.card_control_normal),
        header_seq(h).subrange(0x64, 0x68) == u32_le_seq(h.card_control_secure),
        header_seq(h).subrange(0x6C, 0x6E) == u16_le_seq(h.secure_checksum),
        header_seq(h).subrange(0x6E, 0x70) == u16_le_seq(h.secure_delay),
        header_seq(h).subrange(0x80, 0x84) == u32_le_seq(h.total_size),
        header_seq(h).subrange(0x84, 0x88) == u32_le_seq(h.header_size),
        header_seq(h).subrange(0xC0, 0x15C) == h.logo@,
        header_seq(h).subrange(0x15C, 0x15E) == u16_le_seq(h.logo_checksum),
        header_seq(h).subrange(0x15E, 0x160) == u16_le_seq(h.header_checksum),
        header_seq(h).subrange(0x160, 0x16C) == seq_zeros(12),
{
    let s = header_seq(h);
    assert(s.subrange(0x00, 0x15E) =~= header_pre_seq(h));
    assert(s.subrange(0x00, 0x0C) =~= h.title@);
    assert(s.subrange(0x0C, 0x10) =~= h.game_code@);
    assert(s.subrange(0x10, 0x12) =~= u16_le_seq(h.maker_code));
    assert(s.subrange(0x20, 0x24) =~= u32_le_seq(h.arm9_rom_offset));
    assert(s.subrange(0x24, 0x28) =~= u32_le_seq(h.arm9_entry));
    assert(s.subrange(0x28, 0x2C) =~= u32_le_seq(h.arm9_ram_addr));
    assert(s.subrange(0x2C, 0x30) =~= u32_le_seq(h.arm9_size));
    assert(s.subrange(0x30, 0x34) =~= u32_le_seq(h.arm7_rom_offset));
    assert(s.subrange(0x34, 0x38) =~= u32_le_seq(h.arm7_entry));
    assert(s.subrange(0x38, 0x3C) =~= u32_le_seq(h.arm7_ram_addr));
    assert(s.subrange(0x3C, 0x40) =~= u32_le_seq(h.arm7_size));
    assert(s.subrange(0x60, 0x64) =~= u32_le_seq(h.card_control_normal));
    assert(s.subrange(0x64, 0x68) =~= u32_le_seq(h.card_control_secure));
    assert(s.subrange(0x6C, 0x6E) =~= u16_le_seq(h.secure_checksum));
    assert(s.subrange(0x6E, 0x70) =~= u16_le_seq(h.secure_delay));
    assert(s.subrange(0x80, 0x84) =~= u32_le_seq(h.total_size));
    assert(s.subrange(0x84, 0x88) =~= u32_le_seq(h.header_size));
    assert(s.subrange(0xC0, 0x15C) =~= h.logo@);
    assert(s.subrange(0x15C, 0x15E) =~= u16_le_seq(h.logo_checksum));
    assert(s.subrange(0x15E, 0x160) =~= u16_le_seq(h.header_checksum));
    assert(s.subrange(0x160, 0x16C) =~= seq_zeros(12));
}

/// The reserved regions and the fields this tool always leaves at
/// zero serialize to zero-filled byte ranges.
#[verifier::rlimit(100)]
pub proof fn lemma_header_zero_regions(h: RomHeader)
    requires
        h.wf(),
        h.unit_code == 0 && h.seed_select == 0 && h.capacity == 0,
        h.region == 0 && h.version == 0 && h.autostart == 0,
        h.fnt_offset == 0 && h.fnt_size == 0 && h.fat_offset == 0 && h.fat_size == 0,
        h.arm9_overlay_offset == 0 && h.arm9_overlay_size == 0,
        h.arm7_overlay_offset == 0 && h.arm7_overlay_size == 0,
        h.icon_title_offset == 0,
        h.arm9_autoload_hook == 0 && h.arm7_autoload_hook == 0,
    ensures
        header_seq(h).subrange(0x12, 0x20) == seq_zeros(14),
        header_seq(h).subrange(0x40, 0x60) == seq_zeros(0x20),
        header_seq(h).subrange(0x68, 0x6C) == seq_zeros(4),
        header_seq(h).subrange(0x70, 0x80) == seq_zeros(16),
        header_seq(h).subrange(0x88, 0xC0) == seq_zeros(0x38),
{
    let s = header_seq(h);
    assert((0u32 & 0xFF) as u8 == 0 && ((0u32 >> 8) & 0xFF) as u8 == 0 && ((0u32 >> 16)
        & 0xFF) as u8 == 0 && ((0u32 >> 24) & 0xFF) as u8 == 0) by (bit_vector);
    assert((0u16 & 0xFF) as u8 == 0 && ((0u16 >> 8) & 0xFF) as u8 == 0) by (bit_vector);
    assert(u32_le_seq(0) =~= seq_zeros(4));
    assert(u16_le_seq(0) =~= seq_zeros(2));
    assert(s.subrange(0x12, 0x20) =~= seq_zeros(14));
    assert(s.subrange(0x40, 0x60) =~= seq_zeros(0x20));
    assert(s.subrange(0x68, 0x6C) =~= seq_zeros(4));
    assert(s.subrange(0x70, 0x80) =~= seq_zeros(16));
    assert(s.subrange(0x88, 0xC0) =~= seq_zeros(0x38));
}

/// The per-core placement data and checksums read back out of a
/// serialized header.
pub struct HeaderInfo {
    pub arm9_rom_offset: u32,
    pub arm9_entry: u32,
    pub arm9_ram_addr: u32,
    pub arm9_size: u32,
    pub arm7_rom_offset: u32,
    pub arm7_entry: u32,
    pub arm7_ram_addr: u32,
    pub arm7_size: u32,
    pub secure_checksum: u16,
    pub total_size: u32,
    pub header_checksum: u16,
}

/// Reads the placement records, the secure-area checksum, the total
/// size, and the self-checksum back out of a serialized header.
/// Returns nothing when the input is too short to hold the defined
/// header fields.
pub fn parse_header(rom: &[u8]) -> (r: Option<HeaderInfo>)
    ensures
        r is Some <==> rom@.len() >= 0x160,
        match r {
            Some(info) => {
                &&& info.arm9_rom_offset == le32_at(rom@, 0x20)
                &&& info.arm9_entry == le32_at(rom@, 0x24)
                &&& info.arm9_ram_addr == le32_at(rom@, 0x28)
                &&& info.arm9_size == le32_at(rom@, 0x2C)
                &&& info.arm7_rom_offset == le32_at(rom@, 0x30)
                &&& info.arm7_entry == le32_at(rom@, 0x34)
                &&& info.arm7_ram_addr == le32_at(rom@, 0x38)
                &&& info.arm7_size == le32_at(rom@, 0x3C)
                &&& info.secure_checksum == le16_at(rom@, 0x6C)
                &&& info.total_size == le32_at(rom@, 0x80)
                &&& info.header_checksum == le16_at(rom@, 0x15E)
            },
            None => true,
        },
{
    if rom.len() < 0x160 {
        return None;
    }
    Some(HeaderInfo {
        arm9_rom_offset: read_u32_at(rom, 0x20),
        arm9_entry: read_u32_at(rom, 0x24),
        arm9_ram_addr: read_u32_at(rom, 0x28),
        arm9_size: read_u32_at(rom, 0x2C),
        arm7_rom_offset: read_u32_at(rom, 0x30),
        arm7_entry: read_u32_at(rom, 0x34),
        arm7_ram_addr: read_u32_at(rom, 0x38),
        arm7_size: read_u32_at(rom, 0x3C),
        secure_checksum: read_u16_at(rom, 0x6C),
        total_size: read_u32_at(rom, 0x80),
        header_checksum: read_u16_at(rom, HEADER_CRC_OFFSET),
    })
}


/// Synthesizes the complete serialized header for the given placement
/// results: static defaults, both cores' records, the secure-area
/// checksum and total size handed in, and finally the self-checksum
/// computed over the serialized bytes before its field.
#[verifier::rlimit(100)]
pub fn make_header_bytes(
    entry9: u32,
    base9: u32,
    size9: u32,
    off7: u32,
    entry7: u32,
    base7: u32,
    size7: u32,
    secure: u16,
    total: u32,
) -> (hb: Vec<u8>)
    ensures
        hb@.len() == HEADER_BYTES,
        hb@.subrange(0x00, 0x0C) == default_title_seq(),
        hb@.subrange(0x0C, 0x10) == default_game_code_seq(),
        hb@.subrange(0x10, 0x12) == u16_le_seq(0x3030),
        hb@.subrange(0x12, 0x20) == seq_zeros(14),
        hb@.subrange(0x20, 0x24) == u32_le_seq(0x4000),
        hb@.subrange(0x24, 0x28) == u32_le_seq(entry9),
        hb@.subrange(0x28, 0x2C) == u32_le_seq(base9),
        hb@.subrange(0x2C, 0x30) == u32_le_seq(size9),
        hb@.subrange(0x30, 0x34) == u32_le_seq(off7),
        hb@.subrange(0x34, 0x38) == u32_le_seq(entry7),
        hb@.subrange(0x38, 0x3C) == u32_le_seq(base7),
        hb@.subrange(0x3C, 0x40) == u32_le_seq(size7),
        hb@.subrange(0x40, 0x60) == seq_zeros(0x20),
        hb@.subrange(0x60, 0x64) == u32_le_seq(0x0058_6000),
        hb@.subrange(0x64, 0x68) == u32_le_seq(0x0018_08F8),
        hb@.subrange(0x68, 0x6C) == seq_zeros(4),
        hb@.subrange(0x6C, 0x6E) == u16_le_seq(secure),
        hb@.subrange(0x6E, 0x70) == u16_le_seq(0x051E),
        hb@.subrange(0x70, 0x80) == seq_zeros(16),
        hb@.subrange(0x80, 0x84) == u32_le_seq(total),
        hb@.subrange(0x84, 0x88) == u32_le_seq(0x4000),
        hb@.subrange(0x88, 0xC0) == seq_zeros(0x38),
        hb@.subrange(0xC0, 0x15C) == logo_seq(),
        hb@.subrange(0x15C, 0x15E) == u16_le_seq(LOGO_CRC),
        hb@.subrange(0x15E, 0x160) == u16_le_seq(crc16_spec(hb@.subrange(0x00, 0x15E))),
        hb@.subrange(0x160, 0x16C) == seq_zeros(12),
{
    let mut h = base_header();
    h.arm9_rom_offset = 0x4000;
    h.arm9_entry = entry9;
    h.arm9_ram_addr = base9;
    h.arm9_size = size9;
    h.arm7_rom_offset = off7;
    h.arm7_entry = entry7;
    h.arm7_ram_addr = base7;
    h.arm7_size = size7;
    h.secure_checksum = secure;
    h.total_size = total;
    let ghost h1 = h;
    let hb0 = serialize_header(&h);
    proof {
        lemma_header_layout(h1);
    }
    let hcrc = crc16_range(&hb0, 0, HEADER_CRC_OFFSET);
    h.header_checksum = hcrc;
    let ghost h2 = h;
    proof {
        assert(chunk_ident(h2) == chunk_ident(h1));
        assert(chunk_cores(h2) == chunk_cores(h1));
        assert(chunk_tables(h2) == chunk_tables(h1));
        assert(chunk_sizes(h2) == chunk_sizes(h1));
        assert(chunk_logo(h2) == chunk_logo(h1));
        assert(header_pre_seq(h2) == header_pre_seq(h1));
    }
    let hb = serialize_header(&h);
    proof {
        lemma_header_layout(h2);
        lemma_header_zero_regions(h2);
    }
    hb
}

} // verus!
