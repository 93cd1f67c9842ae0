//! Placement of extracted segments into the output image: the
//! alignment rule, gap zero-filling, overlap detection, and the two
//! cores' console-mandated start offsets.

use vstd::prelude::*;
use crate::bytes::{seq_zeros, push_zeros, push_bytes};
use crate::exec_image::{Segment, segs_pairs};

verus! {

/// File offset where the primary core's code starts.
pub const PRIMARY_OFFSET: u32 = 0x4000;

/// Lowest file offset where the secondary core's code may start.
pub const SECONDARY_FLOOR: u32 = 0x8000;

/// The smallest multiple of 4 that is at least `pos`.
pub open spec fn align4_spec(pos: int) -> int {
    if pos % 4 == 0 {
        pos
    } else {
        pos + 4 - pos % 4
    }
}

/// The post-alignment position is a multiple of 4, moves forward by
/// less than 4 bytes, and is exactly `pos` when `pos` is already
/// aligned.
pub proof fn lemma_align4_bounds(pos: int)
    requires
        pos >= 0,
    ensures
        align4_spec(pos) % 4 == 0,
        pos <= align4_spec(pos) < pos + 4,
        pos % 4 == 0 ==> align4_spec(pos) == pos,
{
}

/// No multiple of 4 at or above `pos` is below the post-alignment
/// position: it is the smallest such multiple.
pub proof fn lemma_align4_least(pos: int, m: int)
    requires
        pos >= 0,
        m % 4 == 0,
        m >= pos,
    ensures
        m >= align4_spec(pos),
{
}

/// Pads a file position forward to the next 4-byte boundary.
pub fn align4(pos: u64) -> (r: u64)
    requires
        pos <= 0xFFFF_FFFF_FFFF_FFFC,
    ensures
        r == align4_spec(pos as int),
{
    if pos % 4 == 0 {
        pos
    } else {
        pos + (4 - pos % 4)
    }
}

/// The target address one past segment `p`'s file-resident bytes.
pub open spec fn seg_end(p: (u32, Seq<u8>)) -> int {
    p.0 + p.1.len()
}

/// Each segment starts at or after the end of the one before it: the
/// segments cover disjoint, ascending address ranges.
pub open spec fn no_overlap(segs: Seq<(u32, Seq<u8>)>) -> bool {
    forall|i: int|
        0 <= i < segs.len() - 1 ==> seg_end(#[trigger] segs[i]) <= segs[i + 1].0
}

/// Every segment's address range stays inside the 32-bit space.
pub open spec fn segs_bounded(segs: Seq<(u32, Seq<u8>)>) -> bool {
    forall|i: int| 0 <= i < segs.len() ==> seg_end(#[trigger] segs[i]) <= 0xFFFF_FFFF
}

/// The bytes a segment run lays down, starting from position
/// `last_end` in the target address space: for each segment a
/// zero-filled gap from `last_end` to its address, then its payload.
pub open spec fn placed_tail(segs: Seq<(u32, Seq<u8>)>, last_end: int) -> Seq<u8>
    decreases segs.len(),
{
    if segs.len() == 0 {
        Seq::empty()
    } else {
        seq_zeros(segs[0].0 - last_end) + segs[0].1 + placed_tail(
            segs.drop_first(),
            seg_end(segs[0]),
        )
    }
}

/// The byte stream one core contributes to the image: its segments'
/// payloads in order, with zero-filled gaps between them.
pub open spec fn placed_bytes(segs: Seq<(u32, Seq<u8>)>) -> Seq<u8> {
    placed_tail(segs, segs[0].0 as int)
}

/// The byte span one core occupies in the image: from its lowest
/// target address to the end of its last segment's file bytes.
pub open spec fn placed_size(segs: Seq<(u32, Seq<u8>)>) -> int {
    seg_end(segs.last()) - segs[0].0
}

/// A non-overlapping tail starting at or after `last_end` lays down
/// exactly the bytes from `last_end` to its last segment's end.
proof fn lemma_placed_tail_len(segs: Seq<(u32, Seq<u8>)>, last_end: int)
    requires
        segs.len() > 0,
        no_overlap(segs),
        last_end <= segs[0].0,
    ensures
        placed_tail(segs, last_end).len() == seg_end(segs.last()) - last_end,
    decreases segs.len(),
{
    if segs.len() == 1 {
        assert(placed_tail(segs.drop_first(), seg_end(segs[0])) =~= Seq::<u8>::empty());
        assert(segs.last() == segs[0]);
    } else {
        let tail = segs.drop_first();
        assert forall|i: int| 0 <= i < tail.len() - 1 implies seg_end(#[trigger] tail[i])
            <= tail[i + 1].0 by {
            assert(tail[i] == segs[i + 1]);
            assert(tail[i + 1] == segs[i + 2]);
        }
        assert(seg_end(segs[0]) <= segs[1].0);
        assert(tail[0] == segs[1]);
        lemma_placed_tail_len(tail, seg_end(segs[0]));
        assert(tail.last() == segs.last());
    }
}

/// A non-overlapping segment run lays down exactly `placed_size`
/// bytes.
pub proof fn lemma_placed_bytes_len(segs: Seq<(u32, Seq<u8>)>)
    requires
        segs.len() > 0,
        no_overlap(segs),
    ensures
        placed_bytes(segs).len() == placed_size(segs),
{
    lemma_placed_tail_len(segs, segs[0].0 as int);
}

/// Dropping the first segment keeps the rest non-overlapping.
proof fn lemma_no_overlap_drop_first(segs: Seq<(u32, Seq<u8>)>)
    requires
        segs.len() > 0,
        no_overlap(segs),
    ensures
        no_overlap(segs.drop_first()),
{
    let tail = segs.drop_first();
    assert forall|i: int| 0 <= i < tail.len() - 1 implies seg_end(#[trigger] tail[i])
        <= tail[i + 1].0 by {
        assert(tail[i] == segs[i + 1]);
        assert(tail[i + 1] == segs[i + 2]);
    }
}

/// The start of the first segment never exceeds the end of the last:
/// a non-overlapping run has a non-negative placed size.
pub proof fn lemma_placed_size_nonneg(segs: Seq<(u32, Seq<u8>)>)
    requires
        segs.len() > 0,
        no_overlap(segs),
    ensures
        placed_size(segs) >= 0,
        segs[0].0 <= seg_end(segs.last()),
    decreases segs.len(),
{
    if segs.len() > 1 {
        lemma_no_overlap_drop_first(segs);
        let tail = segs.drop_first();
        lemma_placed_size_nonneg(tail);
        assert(tail[0] == segs[1]);
        assert(tail.last() == segs.last());
        assert(seg_end(segs[0]) <= segs[1].0);
    }
}

/// Decides whether a segment run is free of overlaps: every segment
/// must start at or after the end of the previous one.
pub fn check_no_overlap(segs: &Vec<Segment>) -> (r: bool)
    ensures
        r == no_overlap(segs_pairs(segs@)),
{
    let ghost pairs = segs_pairs(segs@);
    let n = segs.len();
    if n == 0 {
        return true;
    }
    let mut i: usize = 0;
    while i < n - 1
        invariant
            n == segs@.len(),
            n >= 1,
            i <= n - 1,
            pairs == segs_pairs(segs@),
            forall|j: int| 0 <= j < i ==> seg_end(#[trigger] pairs[j]) <= pairs[j + 1].0,
        decreases n - 1 - i,
    {
        let cur = segs[i].addr;
        let next = segs[i + 1].addr;
        if next < cur {
            proof {
                assert(seg_end(pairs[i as int]) > pairs[i + 1].0);
            }
            return false;
        }
        if ((next - cur) as u64) < segs[i].data.len() as u64 {
            proof {
                assert(seg_end(pairs[i as int]) > pairs[i + 1].0);
            }
            return false;
        }
        proof {
            assert(seg_end(pairs[i as int]) <= pairs[i + 1].0);
        }
        i = i + 1;
    }
    true
}

/// Appends one core's segment run to the output image: for each
/// segment, a zero-filled gap covering the skipped address range, then
/// the segment's file-resident payload.
#[verifier::rlimit(100)]
pub fn append_placed(out: &mut Vec<u8>, segs: &Vec<Segment>)
    requires
        segs@.len() > 0,
        no_overlap(segs_pairs(segs@)),
        segs_bounded(segs_pairs(segs@)),
        old(out)@.len() + placed_size(segs_pairs(segs@)) <= usize::MAX,
    ensures
        final(out)@ == old(out)@ + placed_bytes(segs_pairs(segs@)),
{
    let ghost pairs = segs_pairs(segs@);
    let n = segs.len();
    let mut last_end: u64 = segs[0].addr as u64;
    proof {
        assert(pairs.skip(0) =~= pairs);
        lemma_placed_size_nonneg(pairs);
    }
    let mut i: usize = 0;
    while i < n
        invariant
            n == segs@.len(),
            n > 0,
            i <= n,
            pairs == segs_pairs(segs@),
            no_overlap(pairs),
            segs_bounded(pairs),
            i < n ==> last_end <= pairs[i as int].0,
            i == n ==> last_end == seg_end(pairs[n - 1]),
            i == 0 ==> last_end == pairs[0].0,
            i > 0 ==> last_end == seg_end(pairs[i - 1]),
            last_end <= 0xFFFF_FFFF,
            out@ + placed_tail(pairs.skip(i as int), last_end as int) == old(out)@
                + placed_bytes(pairs),
            out@.len() == old(out)@.len() + (last_end - pairs[0].0),
            old(out)@.len() + placed_size(pairs) <= usize::MAX,
        decreases n - i,
    {
        proof {
            if i > 0 {
                assert(seg_end(pairs[i - 1]) <= pairs[i as int].0);
            }
            lemma_chain_prefix(pairs, i as int, last_end as int);
        }
        let addr = segs[i].addr;
        let gap: u64 = (addr as u64) - last_end;
        proof {
            assert(seg_end(pairs[i as int]) <= 0xFFFF_FFFF);
            lemma_tail_span(pairs, i as int, last_end as int);
        }
        push_zeros(out, gap as usize);
        push_bytes(out, &segs[i].data);
        last_end = (addr as u64) + (segs[i].data.len() as u64);
        proof {
            let rest = pairs.skip(i as int);
            assert(rest[0] == pairs[i as int]);
            assert(rest.drop_first() =~= pairs.skip(i + 1));
            assert(placed_tail(rest, (last_end - gap - pairs[i as int].1.len()) as int)
                == seq_zeros(gap as int) + pairs[i as int].1 + placed_tail(
                pairs.skip(i + 1),
                seg_end(pairs[i as int]),
            ));
        }
        i = i + 1;
        proof {
            assert(out@ + placed_tail(pairs.skip(i as int), last_end as int) =~= old(out)@
                + placed_bytes(pairs));
        }
    }
    proof {
        assert(placed_tail(pairs.skip(n as int), last_end as int) =~= Seq::<u8>::empty());
        assert(final(out)@ =~= old(out)@ + placed_bytes(pairs));
    }
}

/// The segments from index `i` on still start at or after `last_end`,
/// so the bytes they lay down span to the last segment's end.
proof fn lemma_tail_span(pairs: Seq<(u32, Seq<u8>)>, i: int, last_end: int)
    requires
        0 <= i < pairs.len(),
        no_overlap(pairs),
        last_end <= pairs[i].0,
    ensures
        placed_tail(pairs.skip(i), last_end).len() == seg_end(pairs.last()) - last_end,
        pairs[i].0 <= seg_end(pairs.last()),
{
    let rest = pairs.skip(i);
    assert forall|k: int| 0 <= k < rest.len() - 1 implies seg_end(#[trigger] rest[k])
        <= rest[k + 1].0 by {
        assert(rest[k] == pairs[i + k]);
        assert(rest[k + 1] == pairs[i + k + 1]);
    }
    assert(rest[0] == pairs[i]);
    assert(rest.last() == pairs.last());
    lemma_placed_tail_len(rest, last_end);
    lemma_placed_size_nonneg(rest);
}

/// Helper: the bytes already written plus the remaining tail always
/// rebuild the whole placed run (used to step the loop invariant).
proof fn lemma_chain_prefix(pairs: Seq<(u32, Seq<u8>)>, i: int, last_end: int)
    requires
        0 <= i < pairs.len(),
        no_overlap(pairs),
        last_end <= pairs[i].0,
    ensures
        placed_tail(pairs.skip(i), last_end) == seq_zeros(pairs[i].0 - last_end) + pairs[i].1
            + placed_tail(pairs.skip(i + 1), seg_end(pairs[i])),
{
    let rest = pairs.skip(i);
    assert(rest.len() > 0);
    assert(rest[0] == pairs[i]);
    assert(rest.drop_first() =~= pairs.skip(i + 1));
}

} // verus!
