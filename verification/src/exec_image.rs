//! Segment extraction from a 32-bit little-endian executable image.
//!
//! Only the program-header table and the entry point are consumed: the
//! parser selects the segments marked loadable, skips those with a
//! zero file size or a zero memory size, and hands back their target
//! addresses and file-resident payloads in table order.

use vstd::prelude::*;
use crate::bytes::{le16_at, le32_at, read_u16_at, read_u32_at, copy_range};
use crate::RomError;

verus! {

/// Segment type tag marking a loadable segment.
pub const SEG_TYPE_LOAD: u32 = 1;

/// Machine tag of the expected target architecture.
pub const EXPECTED_MACHINE: u16 = 0x28;

/// One loadable segment: its target load address and its file-resident
/// payload. Any memory-only tail (a zero-fill region) is not
/// materialized; it exists only in the runtime size the loader
/// reserves at boot.
pub struct Segment {
    pub addr: u32,
    pub data: Vec<u8>,
}

/// One executable's loadable content: the runtime entry point and the
/// selected segments in table order.
pub struct ExecImage {
    pub entry: u32,
    pub segments: Vec<Segment>,
}

/// The mathematical shadow of a segment sequence: pairs of target
/// address and payload bytes.
pub open spec fn segs_pairs(segs: Seq<Segment>) -> Seq<(u32, Seq<u8>)> {
    Seq::new(segs.len(), |i: int| (segs[i].addr, segs[i].data@))
}

impl ExecImage {
    /// The mathematical shadow of this image's segments.
    pub open spec fn pairs(self) -> Seq<(u32, Seq<u8>)> {
        segs_pairs(self.segments@)
    }
}

/// The fixed identification prologue of a well-formed image: magic
/// number, 32-bit class, little-endian data encoding, and a file large
/// enough to hold the fixed-size file header.
pub open spec fn ident_ok(s: Seq<u8>) -> bool {
    &&& s.len() >= 0x34
    &&& s[0] == 0x7F
    &&& s[1] == 0x45
    &&& s[2] == 0x4C
    &&& s[3] == 0x46
    &&& s[4] == 1
    &&& s[5] == 1
}

/// The machine tag of the image.
pub open spec fn image_machine(s: Seq<u8>) -> u16 {
    le16_at(s, 0x12)
}

/// The declared runtime entry point.
pub open spec fn image_entry(s: Seq<u8>) -> u32 {
    le32_at(s, 0x18)
}

/// File offset of the program-header table.
pub open spec fn image_phoff(s: Seq<u8>) -> u32 {
    le32_at(s, 0x1C)
}

/// Size of one program-header table entry.
pub open spec fn image_phentsize(s: Seq<u8>) -> u16 {
    le16_at(s, 0x2A)
}

/// Number of program-header table entries.
pub open spec fn image_phnum(s: Seq<u8>) -> u16 {
    le16_at(s, 0x2C)
}

/// The program-header table lies inside the file and its entries are
/// at least the fixed entry size.
pub open spec fn table_ok(s: Seq<u8>) -> bool {
    &&& image_phentsize(s) >= 0x20
    &&& image_phoff(s) + image_phnum(s) * image_phentsize(s) <= s.len()
}

/// File offset of program header `i`.
pub open spec fn ph_base(s: Seq<u8>, i: int) -> int {
    image_phoff(s) + i * image_phentsize(s)
}

/// Type tag of segment `i`.
pub open spec fn ph_type(s: Seq<u8>, i: int) -> u32 {
    le32_at(s, ph_base(s, i))
}

/// File offset of segment `i`'s payload.
pub open spec fn ph_offset(s: Seq<u8>, i: int) -> u32 {
    le32_at(s, ph_base(s, i) + 0x4)
}

/// Target load address of segment `i`.
pub open spec fn ph_addr(s: Seq<u8>, i: int) -> u32 {
    le32_at(s, ph_base(s, i) + 0x8)
}

/// File-resident size of segment `i`.
pub open spec fn ph_filesz(s: Seq<u8>, i: int) -> u32 {
    le32_at(s, ph_base(s, i) + 0x10)
}

/// Declared in-memory size of segment `i`.
pub open spec fn ph_memsz(s: Seq<u8>, i: int) -> u32 {
    le32_at(s, ph_base(s, i) + 0x14)
}

/// Segment `i` contributes bytes to the output: it is loadable and has
/// both a file size and a memory size.
pub open spec fn ph_selected(s: Seq<u8>, i: int) -> bool {
    &&& ph_type(s, i) == SEG_TYPE_LOAD
    &&& ph_filesz(s, i) > 0
    &&& ph_memsz(s, i) > 0
}

/// Segment `i`'s payload lies inside the file, and its target address
/// range stays inside the 32-bit address space.
pub open spec fn ph_bounds_ok(s: Seq<u8>, i: int) -> bool {
    &&& ph_offset(s, i) + ph_filesz(s, i) <= s.len()
    &&& ph_addr(s, i) + ph_filesz(s, i) <= 0xFFFF_FFFF
}

/// Every selected segment has valid bounds.
pub open spec fn segments_bounded(s: Seq<u8>) -> bool {
    forall|i: int|
        0 <= i < image_phnum(s) && ph_selected(s, i) ==> #[trigger] ph_bounds_ok(s, i)
}

/// A structurally well-formed executable image.
pub open spec fn image_wf(s: Seq<u8>) -> bool {
    &&& ident_ok(s)
    &&& table_ok(s)
    &&& segments_bounded(s)
}

/// The extracted model of segment `i`: target address and payload.
pub open spec fn seg_model(s: Seq<u8>, i: int) -> (u32, Seq<u8>) {
    (ph_addr(s, i), s.subrange(ph_offset(s, i) as int, ph_offset(s, i) + ph_filesz(s, i)))
}

/// The selected segments with table index in `[lo, hi)`, in order.
pub open spec fn segs_range(s: Seq<u8>, lo: int, hi: int) -> Seq<(u32, Seq<u8>)>
    decreases hi - lo,
{
    if lo >= hi {
        Seq::empty()
    } else if ph_selected(s, lo) {
        seq![seg_model(s, lo)] + segs_range(s, lo + 1, hi)
    } else {
        segs_range(s, lo + 1, hi)
    }
}

/// All selected segments of the image, in table order.
pub open spec fn image_segments(s: Seq<u8>) -> Seq<(u32, Seq<u8>)> {
    segs_range(s, 0, image_phnum(s) as int)
}

/// Extending the scanned index range by one entry appends that entry's
/// model exactly when the entry is selected.
proof fn lemma_segs_range_snoc(s: Seq<u8>, lo: int, hi: int)
    requires
        lo <= hi,
    ensures
        segs_range(s, lo, hi + 1) == segs_range(s, lo, hi) + (if ph_selected(s, hi) {
            seq![seg_model(s, hi)]
        } else {
            Seq::<(u32, Seq<u8>)>::empty()
        }),
    decreases hi - lo,
{
    let tail = if ph_selected(s, hi) {
        seq![seg_model(s, hi)]
    } else {
        Seq::<(u32, Seq<u8>)>::empty()
    };
    if lo == hi {
        assert(segs_range(s, hi + 1, hi + 1) =~= Seq::<(u32, Seq<u8>)>::empty());
        assert(segs_range(s, lo, hi) =~= Seq::<(u32, Seq<u8>)>::empty());
        assert(segs_range(s, lo, hi + 1) =~= segs_range(s, lo, hi) + tail);
    } else {
        lemma_segs_range_snoc(s, lo + 1, hi);
        assert(segs_range(s, lo, hi + 1) =~= segs_range(s, lo, hi) + tail);
    }
}

/// Every segment model in a scanned range has valid bounds: its
/// payload length is its file size and its address range fits the
/// 32-bit space.
proof fn lemma_segs_range_bounded(s: Seq<u8>, lo: int, hi: int)
    requires
        0 <= lo,
        hi <= image_phnum(s),
        segments_bounded(s),
    ensures
        forall|k: int|
            0 <= k < segs_range(s, lo, hi).len() ==> (#[trigger] segs_range(s, lo, hi)[k]).0
                + segs_range(s, lo, hi)[k].1.len() <= 0xFFFF_FFFF,
    decreases hi - lo,
{
    if lo < hi {
        lemma_segs_range_bounded(s, lo + 1, hi);
        if ph_selected(s, lo) {
            assert(ph_bounds_ok(s, lo));
            assert forall|k: int| 0 <= k < segs_range(s, lo, hi).len() implies
                (#[trigger] segs_range(s, lo, hi)[k]).0 + segs_range(s, lo, hi)[k].1.len()
                    <= 0xFFFF_FFFF by {
                if k > 0 {
                    assert(segs_range(s, lo, hi)[k] == segs_range(s, lo + 1, hi)[k - 1]);
                }
            }
        }
    }
}

/// Every selected segment of a well-formed image stays inside the
/// 32-bit address space.
pub proof fn lemma_image_segments_bounded(s: Seq<u8>)
    requires
        image_wf(s),
    ensures
        forall|k: int|
            0 <= k < image_segments(s).len() ==> (#[trigger] image_segments(s)[k]).0
                + image_segments(s)[k].1.len() <= 0xFFFF_FFFF,
{
    lemma_segs_range_bounded(s, 0, image_phnum(s) as int);
}

/// Parses one executable image and extracts its loadable segments.
///
/// Returns the image's entry point and selected segments in table
/// order; fails on a structurally malformed image, on a machine tag
/// other than the expected one, and on an image with no selected
/// segment.
pub fn parse_exec(data: &[u8]) -> (r: Result<ExecImage, RomError>)
    ensures
        match r {
            Ok(img) => {
                &&& image_wf(data@)
                &&& image_machine(data@) == EXPECTED_MACHINE
                &&& image_segments(data@).len() > 0
                &&& img.entry == image_entry(data@)
                &&& img.pairs() == image_segments(data@)
            },
            Err(e) => match e {
                RomError::MalformedExecutable => !image_wf(data@),
                RomError::WrongArchitecture => image_wf(data@) && image_machine(data@)
                    != EXPECTED_MACHINE,
                RomError::NoLoadableSegments => image_wf(data@) && image_machine(data@)
                    == EXPECTED_MACHINE && image_segments(data@).len() == 0,
                _ => false,
            },
        },
{
    let dlen: usize = data.len();
    if dlen < 0x34 {
        return Err(RomError::MalformedExecutable);
    }
    if !(data[0] == 0x7F && data[1] == 0x45 && data[2] == 0x4C && data[3] == 0x46) {
        return Err(RomError::MalformedExecutable);
    }
    if !(data[4] == 1 && data[5] == 1) {
        return Err(RomError::MalformedExecutable);
    }
    let machine = read_u16_at(data, 0x12);
    let entry = read_u32_at(data, 0x18);
    let phoff = read_u32_at(data, 0x1C);
    let phentsize = read_u16_at(data, 0x2A);
    let phnum = read_u16_at(data, 0x2C);

    if phentsize < 0x20 {
        return Err(RomError::MalformedExecutable);
    }
    proof {
        assert((phnum as int) * (phentsize as int) <= 0xFFFF * 0xFFFF) by (nonlinear_arith)
            requires
                phnum as int <= 0xFFFF,
                phentsize as int <= 0xFFFF,
                phnum as int >= 0,
                phentsize as int >= 0,
        ;
    }
    if (phoff as u64) + (phnum as u64) * (phentsize as u64) > dlen as u64 {
        return Err(RomError::MalformedExecutable);
    }

    // Bounds pass: every selected segment must lie inside the file and
    // inside the 32-bit address space.
    let mut i: usize = 0;
    while i < phnum as usize
        invariant
            image_wf(data@) <==> segments_bounded(data@),
            ident_ok(data@),
            table_ok(data@),
            data@.len() == dlen,
            phoff == image_phoff(data@),
            phentsize == image_phentsize(data@),
            phnum == image_phnum(data@),
            i <= phnum as usize,
            forall|j: int| 0 <= j < i && ph_selected(data@, j) ==> #[trigger] ph_bounds_ok(
                data@,
                j,
            ),
        decreases phnum as usize - i,
    {
        proof {
            assert((i as int) * (phentsize as int) >= 0 && (i as int) * (phentsize as int)
                <= (phnum as int) * (phentsize as int) && (i + 1) * (phentsize as int)
                <= (phnum as int) * (phentsize as int) && (i + 1) * (phentsize as int)
                == (i as int) * (phentsize as int) + (phentsize as int) && (phnum as int)
                * (phentsize as int) <= 0xFFFF * 0xFFFF) by (nonlinear_arith)
                requires
                    0 <= i < phnum as int,
                    phnum as int <= 0xFFFF,
                    0 <= phentsize as int <= 0xFFFF,
            ;
        }
        let base64: u64 = (phoff as u64) + (i as u64) * (phentsize as u64);
        proof {
            assert(base64 as int == ph_base(data@, i as int));
            assert(base64 <= dlen as u64);
        }
        let base: usize = base64 as usize;
        let ptype = read_u32_at(data, base);
        let pofs = read_u32_at(data, base + 0x4);
        let paddr = read_u32_at(data, base + 0x8);
        let pfilesz = read_u32_at(data, base + 0x10);
        let pmemsz = read_u32_at(data, base + 0x14);
        if ptype == SEG_TYPE_LOAD && pfilesz > 0 && pmemsz > 0 {
            assert(ph_selected(data@, i as int));
            if (pofs as u64) + (pfilesz as u64) > dlen as u64 {
                proof {
                    assert(!ph_bounds_ok(data@, i as int));
                    assert(!segments_bounded(data@));
                }
                return Err(RomError::MalformedExecutable);
            }
            if (paddr as u64) + (pfilesz as u64) > 0xFFFF_FFFFu64 {
                proof {
                    assert(!ph_bounds_ok(data@, i as int));
                    assert(!segments_bounded(data@));
                }
                return Err(RomError::MalformedExecutable);
            }
            assert(ph_bounds_ok(data@, i as int));
        }
        i = i + 1;
    }
    assert(segments_bounded(data@));

    if machine != EXPECTED_MACHINE {
        return Err(RomError::WrongArchitecture);
    }

    // Extraction pass: copy out the selected segments in table order.
    let mut segments: Vec<Segment> = Vec::new();
    let mut i: usize = 0;
    while i < phnum as usize
        invariant
            image_wf(data@),
            data@.len() == dlen,
            phoff == image_phoff(data@),
            phentsize == image_phentsize(data@),
            phnum == image_phnum(data@),
            i <= phnum as usize,
            segs_pairs(segments@) == segs_range(data@, 0, i as int),
        decreases phnum as usize - i,
    {
        proof {
            assert((i as int) * (phentsize as int) >= 0 && (i as int) * (phentsize as int)
                <= (phnum as int) * (phentsize as int) && (i + 1) * (phentsize as int)
                <= (phnum as int) * (phentsize as int) && (i + 1) * (phentsize as int)
                == (i as int) * (phentsize as int) + (phentsize as int) && (phnum as int)
                * (phentsize as int) <= 0xFFFF * 0xFFFF) by (nonlinear_arith)
                requires
                    0 <= i < phnum as int,
                    phnum as int <= 0xFFFF,
                    0 <= phentsize as int <= 0xFFFF,
            ;
        }
        let base64: u64 = (phoff as u64) + (i as u64) * (phentsize as u64);
        proof {
            assert(base64 as int == ph_base(data@, i as int));
            assert(base64 <= dlen as u64);
        }
        let base: usize = base64 as usize;
        let ptype = read_u32_at(data, base);
        let pofs = read_u32_at(data, base + 0x4);
        let paddr = read_u32_at(data, base + 0x8);
        let pfilesz = read_u32_at(data, base + 0x10);
        let pmemsz = read_u32_at(data, base + 0x14);
        if ptype == SEG_TYPE_LOAD && pfilesz > 0 && pmemsz > 0 {
            assert(ph_selected(data@, i as int));
            assert(ph_bounds_ok(data@, i as int));
            let payload = copy_range(data, pofs as usize, pfilesz as usize);
            segments.push(Segment { addr: paddr, data: payload });
        }
        proof {
            lemma_segs_range_snoc(data@, 0, i as int);
            assert(segs_pairs(segments@) =~= segs_range(data@, 0, i + 1));
        }
        i = i + 1;
    }

    if segments.len() == 0 {
        return Err(RomError::NoLoadableSegments);
    }
    proof {
        assert(image_segments(data@).len() == segs_pairs(segments@).len());
    }
    Ok(ExecImage { entry, segments })
}

} // verus!
