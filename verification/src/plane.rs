//! Writing bit groups into, and reading them back out of, the low-order bits
//! of a run of channel bytes.
//!
//! A channel byte carrying a group keeps all of its high bits: only the low
//! `g` bits are replaced. Channel bytes outside the written run are left
//! untouched.

use vstd::prelude::*;
use crate::bits::spec_group_in_range;
use crate::bits::spec_groups_valid;
use crate::granularity::ByteSplitGranularity;

verus! {

/// One channel byte with the group `v` stored in its low `g` bits and its
/// high bits kept.
pub open spec fn spec_embed_group(c: u8, v: u8, g: ByteSplitGranularity) -> u8 {
    match g {
        ByteSplitGranularity::OneBit => (c & 0xfe) | (v & 0x01),
        ByteSplitGranularity::TwoBits => (c & 0xfc) | (v & 0x03),
        ByteSplitGranularity::FourBits => (c & 0xf0) | (v & 0x0f),
    }
}

/// The low `g` bits of one channel byte.
pub open spec fn spec_low_bits(c: u8, g: ByteSplitGranularity) -> u8 {
    c & g.spec_mask()
}

/// The plane with the groups `gs` stored in the channel bytes
/// `start .. start + gs.len()`, one group per byte, and every other byte
/// unchanged.
pub open spec fn spec_write_groups(
    p: Seq<u8>,
    start: int,
    gs: Seq<u8>,
    g: ByteSplitGranularity,
) -> Seq<u8> {
    Seq::new(
        p.len(),
        |i: int| if start <= i < start + gs.len() {
            spec_embed_group(p[i], gs[i - start], g)
        } else {
            p[i]
        },
    )
}

/// The low `g` bits of the channel bytes `start .. start + count`.
pub open spec fn spec_read_groups(
    p: Seq<u8>,
    start: int,
    count: int,
    g: ByteSplitGranularity,
) -> Seq<u8> {
    Seq::new(count as nat, |t: int| spec_low_bits(p[start + t], g))
}

/// Storing a group never changes the high bits of its channel byte.
pub proof fn lemma_embed_preserves_high(c: u8, v: u8, g: ByteSplitGranularity)
    ensures
        spec_embed_group(c, v, g) >> g.spec_bits() == c >> g.spec_bits(),
{
    match g {
        ByteSplitGranularity::OneBit => {
            assert(((c & 0xfe) | (v & 0x01)) >> 1 == c >> 1) by (bit_vector);
        },
        ByteSplitGranularity::TwoBits => {
            assert(((c & 0xfc) | (v & 0x03)) >> 2 == c >> 2) by (bit_vector);
        },
        ByteSplitGranularity::FourBits => {
            assert(((c & 0xf0) | (v & 0x0f)) >> 4 == c >> 4) by (bit_vector);
        },
    }
}

/// Reading the low bits of a channel byte that carries the group `v` gives
/// `v` back, provided `v` fits in its `g` bits.
pub proof fn lemma_low_bits_of_embed(c: u8, v: u8, g: ByteSplitGranularity)
    requires
        spec_group_in_range(v, g),
    ensures
        spec_low_bits(spec_embed_group(c, v, g), g) == v,
{
    match g {
        ByteSplitGranularity::OneBit => {
            assert(((c & 0xfe) | (v & 0x01)) & 0x01 == v & 0x01) by (bit_vector);
        },
        ByteSplitGranularity::TwoBits => {
            assert(((c & 0xfc) | (v & 0x03)) & 0x03 == v & 0x03) by (bit_vector);
        },
        ByteSplitGranularity::FourBits => {
            assert(((c & 0xf0) | (v & 0x0f)) & 0x0f == v & 0x0f) by (bit_vector);
        },
    }
}

/// Reading back a freshly written run returns exactly the groups written.
pub proof fn lemma_read_after_write(
    p: Seq<u8>,
    start: int,
    gs: Seq<u8>,
    g: ByteSplitGranularity,
)
    requires
        0 <= start,
        start + gs.len() <= p.len(),
        spec_groups_valid(gs, g),
    ensures
        spec_read_groups(spec_write_groups(p, start, gs, g), start, gs.len() as int, g) == gs,
{
    let w = spec_write_groups(p, start, gs, g);
    let r = spec_read_groups(w, start, gs.len() as int, g);
    assert forall|t: int| 0 <= t < gs.len() implies r[t] == gs[t] by {
        assert(spec_group_in_range(gs[t], g));
        lemma_low_bits_of_embed(p[start + t], gs[t], g);
    }
    assert(r =~= gs);
}

/// A read that ends before a later write starts sees the original bytes.
pub proof fn lemma_read_before_write(
    p: Seq<u8>,
    wstart: int,
    gs: Seq<u8>,
    wg: ByteSplitGranularity,
    rstart: int,
    count: int,
    rg: ByteSplitGranularity,
)
    requires
        0 <= rstart,
        0 <= count,
        rstart + count <= wstart,
        wstart + gs.len() <= p.len(),
    ensures
        spec_read_groups(spec_write_groups(p, wstart, gs, wg), rstart, count, rg)
            == spec_read_groups(p, rstart, count, rg),
{
    assert(spec_read_groups(spec_write_groups(p, wstart, gs, wg), rstart, count, rg)
        =~= spec_read_groups(p, rstart, count, rg));
}

/// Replaces the low `g` bits of the channel bytes
/// `start .. start + groups.len()` with the given groups, in order, leaving
/// every other byte and every high bit unchanged.
pub fn write_groups(
    plane: &mut Vec<u8>,
    start: usize,
    groups: &Vec<u8>,
    g: ByteSplitGranularity,
)
    requires
        start + groups@.len() <= old(plane)@.len(),
    ensures
        final(plane)@ == spec_write_groups(old(plane)@, start as int, groups@, g),
{
    let n = plane.len();
    let mut j: usize = 0;
    while j < groups.len()
        invariant
            n == old(plane)@.len(),
            start + groups@.len() <= n,
            j <= groups@.len(),
            plane@.len() == old(plane)@.len(),
            forall|i: int| 0 <= i < plane@.len() && !(start <= i < start + j) ==> plane@[i]
                == old(plane)@[i],
            forall|i: int| start <= i < start + j ==> plane@[i]
                == spec_embed_group(old(plane)@[i], groups@[i - start], g),
        decreases groups@.len() - j,
    {
        let c = plane[start + j];
        let v = groups[j];
        let e = match g {
            ByteSplitGranularity::OneBit => (c & 0xfe) | (v & 0x01),
            ByteSplitGranularity::TwoBits => (c & 0xfc) | (v & 0x03),
            ByteSplitGranularity::FourBits => (c & 0xf0) | (v & 0x0f),
        };
        plane.set(start + j, e);
        j = j + 1;
    }
    proof {
        assert(plane@ =~= spec_write_groups(old(plane)@, start as int, groups@, g));
    }
}

/// Collects the low `g` bits of the channel bytes `start .. start + count`,
/// one group per byte, in order.
pub fn read_groups(
    plane: &Vec<u8>,
    start: usize,
    count: usize,
    g: ByteSplitGranularity,
) -> (r: Vec<u8>)
    requires
        start + count <= plane@.len(),
    ensures
        r@ == spec_read_groups(plane@, start as int, count as int, g),
{
    let n = plane.len();
    let m = g.mask();
    let mut out: Vec<u8> = Vec::new();
    let mut t: usize = 0;
    while t < count
        invariant
            n == plane@.len(),
            start + count <= n,
            t <= count,
            m == g.spec_mask(),
            out@.len() == t,
            forall|i: int| 0 <= i < t ==> out@[i] == spec_low_bits(plane@[start + i], g),
        decreases count - t,
    {
        out.push(plane[start + t] & m);
        t = t + 1;
    }
    proof {
        assert(out@ =~= spec_read_groups(plane@, start as int, count as int, g));
    }
    out
}

} // verus!
