//! The image layout engine and the top-level build: places both
//! cores' segment runs at their console-mandated offsets, synthesizes
//! the header with its two CRC-16 checksums, and emits the finished
//! ROM image.

use vstd::prelude::*;
use crate::RomError;
use crate::bytes::{seq_zeros, u16_le_seq, u32_le_seq, le16_at, le32_at, push_bytes, pad_to,
    lemma_concat_subrange_left, lemma_concat_subrange_right, lemma_read_back_u16,
    lemma_read_back_u32};
use crate::crc::{crc16_spec, crc16_range};
use crate::exec_image::{ExecImage, parse_exec, image_wf, image_machine, image_entry,
    image_segments, lemma_image_segments_bounded, EXPECTED_MACHINE};
use crate::layout::{align4, align4_spec, lemma_align4_bounds, no_overlap, segs_bounded,
    placed_bytes, placed_size, seg_end, check_no_overlap, append_placed, lemma_placed_bytes_len,
    lemma_placed_size_nonneg, PRIMARY_OFFSET, SECONDARY_FLOOR};
use crate::header::{make_header_bytes, logo_seq, default_title_seq, default_game_code_seq,
    LOGO_CRC, HEADER_BYTES};

verus! {

/// File offset where the secondary core lands, given the primary
/// core's placed size: the position after the primary core, 4-byte
/// aligned, but never below the console-mandated floor.
pub open spec fn secondary_offset_spec(size9: int) -> int {
    if PRIMARY_OFFSET + size9 < SECONDARY_FLOOR {
        SECONDARY_FLOOR as int
    } else {
        align4_spec(PRIMARY_OFFSET + size9)
    }
}

/// Length of the finished image: the secondary core's offset plus its
/// placed size.
pub open spec fn final_size_spec(size9: int, size7: int) -> int {
    secondary_offset_spec(size9) + size7
}

/// A build succeeds exactly when both cores have loadable segments,
/// neither core's segments overlap, and the finished image fits the
/// header's 4-byte total-size field.
pub open spec fn build_ok(segs9: Seq<(u32, Seq<u8>)>, segs7: Seq<(u32, Seq<u8>)>) -> bool {
    &&& segs9.len() > 0
    &&& segs7.len() > 0
    &&& no_overlap(segs9)
    &&& no_overlap(segs7)
    &&& final_size_spec(placed_size(segs9), placed_size(segs7)) <= 0xFFFF_FFFF
}

/// The byte-exact wire contract of a successfully built image, given
/// each core's entry point and extracted segments: every header field,
/// both checksums, the zero-filled reserved regions, and both cores'
/// placed byte runs.
pub open spec fn rom_built_from(
    rom: Seq<u8>,
    entry9: u32,
    segs9: Seq<(u32, Seq<u8>)>,
    entry7: u32,
    segs7: Seq<(u32, Seq<u8>)>,
) -> bool {
    let size9 = placed_size(segs9);
    let off7 = secondary_offset_spec(size9);
    let size7 = placed_size(segs7);
    let total = off7 + size7;
    &&& total <= 0xFFFF_FFFF
    &&& rom.len() == total
    &&& rom.subrange(0x00, 0x0C) == default_title_seq()
    &&& rom.subrange(0x0C, 0x10) == default_game_code_seq()
    &&& rom.subrange(0x10, 0x12) == u16_le_seq(0x3030)
    &&& rom.subrange(0x12, 0x20) == seq_zeros(14)
    &&& rom.subrange(0x20, 0x24) == u32_le_seq(PRIMARY_OFFSET)
    &&& rom.subrange(0x24, 0x28) == u32_le_seq(entry9)
    &&& rom.subrange(0x28, 0x2C) == u32_le_seq(segs9[0].0)
    &&& rom.subrange(0x2C, 0x30) == u32_le_seq(size9 as u32)
    &&& rom.subrange(0x30, 0x34) == u32_le_seq(off7 as u32)
    &&& rom.subrange(0x34, 0x38) == u32_le_seq(entry7)
    &&& rom.subrange(0x38, 0x3C) == u32_le_seq(segs7[0].0)
    &&& rom.subrange(0x3C, 0x40) == u32_le_seq(size7 as u32)
    &&& rom.subrange(0x40, 0x60) == seq_zeros(0x20)
    &&& rom.subrange(0x60, 0x64) == u32_le_seq(0x0058_6000)
    &&& rom.subrange(0x64, 0x68) == u32_le_seq(0x0018_08F8)
    &&& rom.subrange(0x68, 0x6C) == seq_zeros(4)
    &&& rom.subrange(0x6C, 0x6E) == u16_le_seq(crc16_spec(rom.subrange(0x4000, 0x8000)))
    &&& rom.subrange(0x6E, 0x70) == u16_le_seq(0x051E)
    &&& rom.subrange(0x70, 0x80) == seq_zeros(16)
    &&& rom.subrange(0x80, 0x84) == u32_le_seq(total as u32)
    &&& rom.subrange(0x84, 0x88) == u32_le_seq(0x4000)
    &&& rom.subrange(0x88, 0xC0) == seq_zeros(0x38)
    &&& rom.subrange(0xC0, 0x15C) == logo_seq()
    &&& rom.subrange(0x15C, 0x15E) == u16_le_seq(LOGO_CRC)
    &&& rom.subrange(0x15E, 0x160) == u16_le_seq(crc16_spec(rom.subrange(0x00, 0x15E)))
    &&& rom.subrange(0x160, 0x16C) == seq_zeros(12)
    &&& rom.subrange(0x16C, 0x4000) == seq_zeros(0x4000 - 0x16C)
    &&& rom.subrange(0x4000, 0x4000 + size9) == placed_bytes(segs9)
    &&& rom.subrange(0x4000 + size9, off7) == seq_zeros(off7 - (0x4000 + size9))
    &&& rom.subrange(off7, total) == placed_bytes(segs7)
}

/// Assembling the header bytes, the zero fill up to the primary
/// offset, and the payload yields an image meeting the wire contract.
#[verifier::rlimit(100)]
proof fn lemma_build_assembles(
    rom: Seq<u8>,
    hb: Seq<u8>,
    payload: Seq<u8>,
    entry9: u32,
    segs9: Seq<(u32, Seq<u8>)>,
    entry7: u32,
    segs7: Seq<(u32, Seq<u8>)>,
)
    requires
        segs9.len() > 0,
        segs7.len() > 0,
        no_overlap(segs9),
        no_overlap(segs7),
        final_size_spec(placed_size(segs9), placed_size(segs7)) <= 0xFFFF_FFFF,
        payload == placed_bytes(segs9) + seq_zeros(
            secondary_offset_spec(placed_size(segs9)) - 0x4000 - placed_size(segs9),
        ) + placed_bytes(segs7),
        rom == hb + seq_zeros(0x4000 - 0x16C) + payload,
        hb.len() == HEADER_BYTES,
        hb.subrange(0x00, 0x0C) == default_title_seq(),
        hb.subrange(0x0C, 0x10) == default_game_code_seq(),
        hb.subrange(0x10, 0x12) == u16_le_seq(0x3030),
        hb.subrange(0x12, 0x20) == seq_zeros(14),
        hb.subrange(0x20, 0x24) == u32_le_seq(0x4000),
        hb.subrange(0x24, 0x28) == u32_le_seq(entry9),
        hb.subrange(0x28, 0x2C) == u32_le_seq(segs9[0].0),
        hb.subrange(0x2C, 0x30) == u32_le_seq(placed_size(segs9) as u32),
        hb.subrange(0x30, 0x34) == u32_le_seq(secondary_offset_spec(placed_size(segs9)) as u32),
        hb.subrange(0x34, 0x38) == u32_le_seq(entry7),
        hb.subrange(0x38, 0x3C) == u32_le_seq(segs7[0].0),
        hb.subrange(0x3C, 0x40) == u32_le_seq(placed_size(segs7) as u32),
        hb.subrange(0x40, 0x60) == seq_zeros(0x20),
        hb.subrange(0x60, 0x64) == u32_le_seq(0x0058_6000),
        hb.subrange(0x64, 0x68) == u32_le_seq(0x0018_08F8),
        hb.subrange(0x68, 0x6C) == seq_zeros(4),
        hb.subrange(0x6C, 0x6E) == u16_le_seq(crc16_spec(payload.subrange(0, 0x4000))),
        hb.subrange(0x6E, 0x70) == u16_le_seq(0x051E),
        hb.subrange(0x70, 0x80) == seq_zeros(16),
        hb.subrange(0x80, 0x84) == u32_le_seq(
            final_size_spec(placed_size(segs9), placed_size(segs7)) as u32,
        ),
        hb.subrange(0x84, 0x88) == u32_le_seq(0x4000),
        hb.subrange(0x88, 0xC0) == seq_zeros(0x38),
        hb.subrange(0xC0, 0x15C) == logo_seq(),
        hb.subrange(0x15C, 0x15E) == u16_le_seq(LOGO_CRC),
        hb.subrange(0x15E, 0x160) == u16_le_seq(crc16_spec(hb.subrange(0x00, 0x15E))),
        hb.subrange(0x160, 0x16C) == seq_zeros(12),
    ensures
        rom_built_from(rom, entry9, segs9, entry7, segs7),
{
    let size9 = placed_size(segs9);
    let off7 = secondary_offset_spec(size9);
    let size7 = placed_size(segs7);
    let total = off7 + size7;
    let gap = seq_zeros(0x4000 - 0x16C);
    let pad = seq_zeros(off7 - 0x4000 - size9);
    let left = hb + gap;
    let p9 = placed_bytes(segs9);
    let p7 = placed_bytes(segs7);

    lemma_placed_bytes_len(segs9);
    lemma_placed_bytes_len(segs7);
    lemma_placed_size_nonneg(segs9);
    lemma_placed_size_nonneg(segs7);
    lemma_align4_bounds(0x4000 + size9);
    assert(off7 >= 0x4000 + size9);
    assert(off7 >= 0x8000);
    assert(payload.len() == off7 - 0x4000 + size7);
    assert(left.len() == 0x4000);
    assert(rom.len() == total);

    lemma_in_header(rom, hb, gap, payload, 0x00, 0x0C);
    lemma_in_header(rom, hb, gap, payload, 0x0C, 0x10);
    lemma_in_header(rom, hb, gap, payload, 0x10, 0x12);
    lemma_in_header(rom, hb, gap, payload, 0x12, 0x20);
    lemma_in_header(rom, hb, gap, payload, 0x20, 0x24);
    lemma_in_header(rom, hb, gap, payload, 0x24, 0x28);
    lemma_in_header(rom, hb, gap, payload, 0x28, 0x2C);
    lemma_in_header(rom, hb, gap, payload, 0x2C, 0x30);
    lemma_in_header(rom, hb, gap, payload, 0x30, 0x34);
    lemma_in_header(rom, hb, gap, payload, 0x34, 0x38);
    lemma_in_header(rom, hb, gap, payload, 0x38, 0x3C);
    lemma_in_header(rom, hb, gap, payload, 0x3C, 0x40);
    lemma_in_header(rom, hb, gap, payload, 0x40, 0x60);
    lemma_in_header(rom, hb, gap, payload, 0x60, 0x64);
    lemma_in_header(rom, hb, gap, payload, 0x64, 0x68);
    lemma_in_header(rom, hb, gap, payload, 0x68, 0x6C);
    lemma_in_header(rom, hb, gap, payload, 0x6C, 0x6E);
    lemma_in_header(rom, hb, gap, payload, 0x6E, 0x70);
    lemma_in_header(rom, hb, gap, payload, 0x70, 0x80);
    lemma_in_header(rom, hb, gap, payload, 0x80, 0x84);
    lemma_in_header(rom, hb, gap, payload, 0x84, 0x88);
    lemma_in_header(rom, hb, gap, payload, 0x88, 0xC0);
    lemma_in_header(rom, hb, gap, payload, 0xC0, 0x15C);
    lemma_in_header(rom, hb, gap, payload, 0x15C, 0x15E);
    lemma_in_header(rom, hb, gap, payload, 0x15E, 0x160);
    lemma_in_header(rom, hb, gap, payload, 0x160, 0x16C);
    lemma_in_header(rom, hb, gap, payload, 0x00, 0x15E);

    // The zero fill between the header record and the primary core.
    assert(rom.subrange(0x16C, 0x4000) == seq_zeros(0x4000 - 0x16C)) by {
        lemma_concat_subrange_left(left, payload, 0x16C, 0x4000);
        lemma_concat_subrange_right(hb, gap, 0x16C, 0x4000);
        assert(gap.subrange(0, 0x4000 - 0x16C) =~= gap);
    }

    // Payload subranges come from the placed runs.
    assert(rom.subrange(0x4000, 0x4000 + size9) == p9) by {
        lemma_concat_subrange_right(left, payload, 0x4000, 0x4000 + size9);
        lemma_concat_subrange_left(p9 + pad, p7, 0, size9);
        lemma_concat_subrange_left(p9, pad, 0, size9);
        assert(p9.subrange(0, size9) =~= p9);
    }
    assert(rom.subrange(0x4000 + size9, off7) == pad) by {
        lemma_concat_subrange_right(left, payload, 0x4000 + size9, off7);
        lemma_concat_subrange_left(p9 + pad, p7, size9, off7 - 0x4000);
        lemma_concat_subrange_right(p9, pad, size9, off7 - 0x4000);
        assert(pad.subrange(0, off7 - 0x4000 - size9) =~= pad);
    }
    assert(rom.subrange(off7, total) == p7) by {
        lemma_concat_subrange_right(left, payload, off7, total);
        lemma_concat_subrange_right(p9 + pad, p7, off7 - 0x4000, total - 0x4000);
        assert(p7.subrange(0, size7) =~= p7);
    }

    // The two checksum fields: the secure-area checksum covers the
    // bytes from the primary core's offset up to the secondary floor,
    // and the self-checksum covers the header bytes before its field.
    assert(rom.subrange(0x4000, 0x8000) == payload.subrange(0, 0x4000)) by {
        lemma_concat_subrange_right(left, payload, 0x4000, 0x8000);
    }
    assert(rom.subrange(0x6C, 0x6E) == u16_le_seq(crc16_spec(rom.subrange(0x4000, 0x8000))));
    assert(rom.subrange(0x15E, 0x160) == u16_le_seq(crc16_spec(rom.subrange(0x00, 0x15E))));
}

/// A subrange inside the header record reads the serialized header
/// bytes alone.
proof fn lemma_in_header(rom: Seq<u8>, hb: Seq<u8>, gap: Seq<u8>, payload: Seq<u8>, a: int, b: int)
    requires
        rom == hb + gap + payload,
        0 <= a <= b <= hb.len(),
    ensures
        rom.subrange(a, b) == hb.subrange(a, b),
{
    lemma_concat_subrange_left(hb + gap, payload, a, b);
    lemma_concat_subrange_left(hb, gap, a, b);
}

/// Lays out both cores and synthesizes the header: the primary core
/// at its fixed offset, the secondary core after it but no earlier
/// than the floor, both 4-byte aligned, then the header record with
/// the secure-area checksum, the total size, and the self-checksum.
pub fn build_rom_from_images(a9: &ExecImage, a7: &ExecImage) -> (r: Result<Vec<u8>, RomError>)
    requires
        segs_bounded(a9.pairs()),
        segs_bounded(a7.pairs()),
    ensures
        r is Ok <==> build_ok(a9.pairs(), a7.pairs()),
        match r {
            Ok(rom) => rom_built_from(rom@, a9.entry, a9.pairs(), a7.entry, a7.pairs()),
            Err(e) => match e {
                RomError::NoLoadableSegments => a9.pairs().len() == 0 || a7.pairs().len() == 0,
                RomError::OverlappingSegments => a9.pairs().len() > 0 && a7.pairs().len() > 0
                    && (!no_overlap(a9.pairs()) || !no_overlap(a7.pairs())),
                RomError::ImageTooLarge => a9.pairs().len() > 0 && a7.pairs().len() > 0
                    && no_overlap(a9.pairs()) && no_overlap(a7.pairs()) && final_size_spec(
                    placed_size(a9.pairs()),
                    placed_size(a7.pairs()),
                ) > 0xFFFF_FFFF,
                _ => false,
            },
        },
{
    let ghost segs9 = a9.pairs();
    let ghost segs7 = a7.pairs();
    let n9 = a9.segments.len();
    let n7 = a7.segments.len();
    if n9 == 0 || n7 == 0 {
        return Err(RomError::NoLoadableSegments);
    }
    if !check_no_overlap(&a9.segments) || !check_no_overlap(&a7.segments) {
        return Err(RomError::OverlappingSegments);
    }
    proof {
        lemma_placed_size_nonneg(segs9);
        lemma_placed_size_nonneg(segs7);
        assert(seg_end(segs9[n9 - 1]) <= 0xFFFF_FFFF);
        assert(seg_end(segs7[n7 - 1]) <= 0xFFFF_FFFF);
        assert(segs9.last() == segs9[n9 - 1]);
        assert(segs7.last() == segs7[n7 - 1]);
    }
    let end9: u64 = (a9.segments[n9 - 1].addr as u64) + (a9.segments[n9 - 1].data.len() as u64);
    let base9: u64 = a9.segments[0].addr as u64;
    let size9: u64 = end9 - base9;
    let end7: u64 = (a7.segments[n7 - 1].addr as u64) + (a7.segments[n7 - 1].data.len() as u64);
    let base7: u64 = a7.segments[0].addr as u64;
    let size7: u64 = end7 - base7;
    proof {
        assert(size9 == placed_size(segs9));
        assert(size7 == placed_size(segs7));
    }
    let pos9: u64 = 0x4000u64 + size9;
    let off7: u64 = if pos9 < 0x8000 {
        0x8000
    } else {
        align4(pos9)
    };
    proof {
        lemma_align4_bounds(pos9 as int);
        assert(off7 == secondary_offset_spec(size9 as int));
        assert(off7 >= pos9 && off7 >= 0x8000);
    }
    let total: u64 = off7 + size7;
    if total > 0xFFFF_FFFFu64 {
        return Err(RomError::ImageTooLarge);
    }

    // Lay the payload out: the primary core's bytes, zero fill up to
    // the secondary core's offset, then the secondary core's bytes.
    let mut payload: Vec<u8> = Vec::new();
    append_placed(&mut payload, &a9.segments);
    proof {
        lemma_placed_bytes_len(segs9);
        assert(payload@ =~= placed_bytes(segs9));
    }
    pad_to(&mut payload, (off7 - 0x4000) as usize);
    append_placed(&mut payload, &a7.segments);
    proof {
        lemma_placed_bytes_len(segs7);
        assert(payload@ =~= placed_bytes(segs9) + seq_zeros(
            secondary_offset_spec(placed_size(segs9)) - 0x4000 - placed_size(segs9),
        ) + placed_bytes(segs7));
    }
    let ghost payload_seq = payload@;

    // Synthesize the header, then assemble the image: header record,
    // zero fill up to the primary core's offset, payload.
    let secure = crc16_range(&payload, 0, 0x4000);
    let hb = make_header_bytes(
        a9.entry,
        a9.segments[0].addr,
        size9 as u32,
        off7 as u32,
        a7.entry,
        a7.segments[0].addr,
        size7 as u32,
        secure,
        total as u32,
    );
    let ghost hb_seq = hb@;
    let mut rom = hb;
    pad_to(&mut rom, 0x4000);
    push_bytes(&mut rom, &payload);
    proof {
        assert(rom@ =~= hb_seq + seq_zeros(0x4000 - 0x16C) + payload_seq);
        assert(u32_le_seq(size9 as u32) == u32_le_seq(placed_size(segs9) as u32));
        assert(u32_le_seq(off7 as u32) == u32_le_seq(
            secondary_offset_spec(placed_size(segs9)) as u32,
        ));
        assert(u32_le_seq(total as u32) == u32_le_seq(
            final_size_spec(placed_size(segs9), placed_size(segs7)) as u32,
        ));
        lemma_build_assembles(rom@, hb_seq, payload_seq, a9.entry, segs9, a7.entry, segs7);
    }
    Ok(rom)
}

/// Everything the build needs of one input executable: well-formed,
/// right machine, and at least one loadable segment.
pub open spec fn image_ok(s: Seq<u8>) -> bool {
    &&& image_wf(s)
    &&& image_machine(s) == EXPECTED_MACHINE
    &&& image_segments(s).len() > 0
}

/// Builds the cartridge ROM image from the two cores' executable
/// images. The primary core's extracted segments land at the fixed
/// primary offset, the secondary core's after them but no earlier
/// than the secondary floor, and the header describes both with its
/// two checksums. Errors of the primary executable are reported
/// before the secondary is examined; placement errors follow.
pub fn build_rom(arm9: &[u8], arm7: &[u8]) -> (r: Result<Vec<u8>, RomError>)
    ensures
        r is Ok <==> image_ok(arm9@) && image_ok(arm7@) && build_ok(
            image_segments(arm9@),
            image_segments(arm7@),
        ),
        match r {
            Ok(rom) => rom_built_from(
                rom@,
                image_entry(arm9@),
                image_segments(arm9@),
                image_entry(arm7@),
                image_segments(arm7@),
            ),
            Err(e) => match e {
                RomError::MalformedExecutable => !image_wf(arm9@) || (image_ok(arm9@)
                    && !image_wf(arm7@)),
                RomError::WrongArchitecture => (image_wf(arm9@) && image_machine(arm9@)
                    != EXPECTED_MACHINE) || (image_ok(arm9@) && image_wf(arm7@)
                    && image_machine(arm7@) != EXPECTED_MACHINE),
                RomError::NoLoadableSegments => (image_wf(arm9@) && image_machine(arm9@)
                    == EXPECTED_MACHINE && image_segments(arm9@).len() == 0) || (image_ok(arm9@)
                    && image_wf(arm7@) && image_machine(arm7@) == EXPECTED_MACHINE
                    && image_segments(arm7@).len() == 0),
                RomError::OverlappingSegments => image_ok(arm9@) && image_ok(arm7@) && (
                !no_overlap(image_segments(arm9@)) || !no_overlap(image_segments(arm7@))),
                RomError::ImageTooLarge => image_ok(arm9@) && image_ok(arm7@) && no_overlap(
                    image_segments(arm9@),
                ) && no_overlap(image_segments(arm7@)) && final_size_spec(
                    placed_size(image_segments(arm9@)),
                    placed_size(image_segments(arm7@)),
                ) > 0xFFFF_FFFF,
            },
        },
{
    let a9 = match parse_exec(arm9) {
        Ok(img) => img,
        Err(e) => {
            return Err(e);
        },
    };
    let a7 = match parse_exec(arm7) {
        Ok(img) => img,
        Err(e) => {
            return Err(e);
        },
    };
    proof {
        lemma_image_segments_bounded(arm9@);
        lemma_image_segments_bounded(arm7@);
        assert forall|i: int| 0 <= i < a9.pairs().len() implies seg_end(#[trigger] a9.pairs()[i])
            <= 0xFFFF_FFFF by {
            assert(a9.pairs()[i] == image_segments(arm9@)[i]);
        }
        assert forall|i: int| 0 <= i < a7.pairs().len() implies seg_end(#[trigger] a7.pairs()[i])
            <= 0xFFFF_FFFF by {
            assert(a7.pairs()[i] == image_segments(arm7@)[i]);
        }
    }
    build_rom_from_images(&a9, &a7)
}


/// Re-parsing the header of a built image recovers exactly what the
/// segment extractor recorded for each core: entry address, load
/// base, placed byte size, each core's file offset, and the total
/// size.
pub proof fn lemma_reparse_recovers(
    rom: Seq<u8>,
    entry9: u32,
    segs9: Seq<(u32, Seq<u8>)>,
    entry7: u32,
    segs7: Seq<(u32, Seq<u8>)>,
)
    requires
        segs9.len() > 0,
        segs7.len() > 0,
        no_overlap(segs9),
        no_overlap(segs7),
        rom_built_from(rom, entry9, segs9, entry7, segs7),
    ensures
        le32_at(rom, 0x20) == PRIMARY_OFFSET,
        le32_at(rom, 0x24) == entry9,
        le32_at(rom, 0x28) == segs9[0].0,
        le32_at(rom, 0x2C) == placed_size(segs9),
        le32_at(rom, 0x30) == secondary_offset_spec(placed_size(segs9)),
        le32_at(rom, 0x34) == entry7,
        le32_at(rom, 0x38) == segs7[0].0,
        le32_at(rom, 0x3C) == placed_size(segs7),
        le32_at(rom, 0x80) == rom.len(),
{
    let size9 = placed_size(segs9);
    let off7 = secondary_offset_spec(size9);
    let size7 = placed_size(segs7);
    let total = off7 + size7;
    lemma_placed_size_nonneg(segs9);
    lemma_placed_size_nonneg(segs7);
    lemma_align4_bounds(0x4000 + size9);
    assert(0 <= size9 <= 0xFFFF_FFFF);
    assert(0 <= size7 <= 0xFFFF_FFFF);
    assert(0 <= off7 <= 0xFFFF_FFFF);
    lemma_read_back_u32(rom, 0x20, PRIMARY_OFFSET);
    lemma_read_back_u32(rom, 0x24, entry9);
    lemma_read_back_u32(rom, 0x28, segs9[0].0);
    lemma_read_back_u32(rom, 0x2C, size9 as u32);
    lemma_read_back_u32(rom, 0x30, off7 as u32);
    lemma_read_back_u32(rom, 0x34, entry7);
    lemma_read_back_u32(rom, 0x38, segs7[0].0);
    lemma_read_back_u32(rom, 0x3C, size7 as u32);
    lemma_read_back_u32(rom, 0x80, total as u32);
}

/// Recomputing the CRC-16 over a built image's header bytes up to the
/// self-checksum field reproduces the stored checksum field exactly.
pub proof fn lemma_header_checksum_roundtrip(
    rom: Seq<u8>,
    entry9: u32,
    segs9: Seq<(u32, Seq<u8>)>,
    entry7: u32,
    segs7: Seq<(u32, Seq<u8>)>,
)
    requires
        segs9.len() > 0,
        segs7.len() > 0,
        no_overlap(segs9),
        no_overlap(segs7),
        rom_built_from(rom, entry9, segs9, entry7, segs7),
    ensures
        le16_at(rom, 0x15E) == crc16_spec(rom.subrange(0x00, 0x15E)),
{
    lemma_placed_size_nonneg(segs9);
    lemma_placed_size_nonneg(segs7);
    lemma_align4_bounds(0x4000 + placed_size(segs9));
    lemma_read_back_u16(rom, 0x15E, crc16_spec(rom.subrange(0x00, 0x15E)));
}

/// The stored secure-area checksum is the CRC-16 over exactly the
/// bytes from the primary core's file offset up to the secondary
/// floor: a range of `0x8000 - 0x4000` bytes.
pub proof fn lemma_secure_area_checksum(
    rom: Seq<u8>,
    entry9: u32,
    segs9: Seq<(u32, Seq<u8>)>,
    entry7: u32,
    segs7: Seq<(u32, Seq<u8>)>,
)
    requires
        segs9.len() > 0,
        segs7.len() > 0,
        no_overlap(segs9),
        no_overlap(segs7),
        rom_built_from(rom, entry9, segs9, entry7, segs7),
    ensures
        le16_at(rom, 0x6C) == crc16_spec(rom.subrange(0x4000, 0x8000)),
        rom.subrange(0x4000, 0x8000).len() == 0x8000 - 0x4000,
{
    lemma_placed_size_nonneg(segs9);
    lemma_placed_size_nonneg(segs7);
    lemma_align4_bounds(0x4000 + placed_size(segs9));
    lemma_read_back_u16(rom, 0x6C, crc16_spec(rom.subrange(0x4000, 0x8000)));
}

} // verus!
