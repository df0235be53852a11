//! Splitting a byte stream into fixed-width bit groups and back.
//!
//! A byte is cut into `8 / g` groups of `g` bits each, most significant bits
//! first, and the groups of successive bytes follow each other in order.
//! Because every supported granularity divides 8, group boundaries never
//! cross a byte and no padding group is ever needed.

use vstd::prelude::*;
use vstd::arithmetic::div_mod::lemma_fundamental_div_mod_converse;
use vstd::arithmetic::div_mod::lemma_mod_multiples_basic;
use crate::granularity::ByteSplitGranularity;
use crate::StegError;

verus! {

/// The bit groups of one byte at granularity `g`, most significant bits
/// first: at one bit per group the first group is the top bit, at four bits
/// per group the first group is the high nibble.
pub open spec fn spec_groups_of_byte(b: u8, g: ByteSplitGranularity) -> Seq<u8> {
    match g {
        ByteSplitGranularity::OneBit => seq![
            (b >> 7) & 0x01,
            (b >> 6) & 0x01,
            (b >> 5) & 0x01,
            (b >> 4) & 0x01,
            (b >> 3) & 0x01,
            (b >> 2) & 0x01,
            (b >> 1) & 0x01,
            b & 0x01,
        ],
        ByteSplitGranularity::TwoBits => seq![
            (b >> 6) & 0x03,
            (b >> 4) & 0x03,
            (b >> 2) & 0x03,
            b & 0x03,
        ],
        ByteSplitGranularity::FourBits => seq![(b >> 4) & 0x0f, b & 0x0f],
    }
}

/// The byte whose groups (most significant first) are `gs`; meaningful when
/// `gs` holds exactly `g.spec_groups_per_byte()` entries. Each group is
/// masked down to its `g` bits, so out-of-range entries cannot spill into
/// neighbouring positions.
pub open spec fn spec_byte_of_groups(gs: Seq<u8>, g: ByteSplitGranularity) -> u8 {
    match g {
        ByteSplitGranularity::OneBit => ((gs[0] & 0x01) << 7) | ((gs[1] & 0x01) << 6)
            | ((gs[2] & 0x01) << 5) | ((gs[3] & 0x01) << 4) | ((gs[4] & 0x01) << 3)
            | ((gs[5] & 0x01) << 2) | ((gs[6] & 0x01) << 1) | (gs[7] & 0x01),
        ByteSplitGranularity::TwoBits => ((gs[0] & 0x03) << 6) | ((gs[1] & 0x03) << 4)
            | ((gs[2] & 0x03) << 2) | (gs[3] & 0x03),
        ByteSplitGranularity::FourBits => ((gs[0] & 0x0f) << 4) | (gs[1] & 0x0f),
    }
}

/// A group value that fits in its `g` bits.
pub open spec fn spec_group_in_range(v: u8, g: ByteSplitGranularity) -> bool {
    v & g.spec_mask() == v
}

/// Every group of the sequence fits in its `g` bits.
pub open spec fn spec_groups_valid(gs: Seq<u8>, g: ByteSplitGranularity) -> bool {
    forall|i: int| 0 <= i < gs.len() ==> #[trigger] spec_group_in_range(gs[i], g)
}

/// The whole byte stream as bit groups: the groups of `s[0]`, then of
/// `s[1]`, and so on.
pub open spec fn spec_pack(s: Seq<u8>, g: ByteSplitGranularity) -> Seq<u8>
    decreases s.len(),
{
    if s.len() == 0 {
        Seq::empty()
    } else {
        spec_groups_of_byte(s[0], g) + spec_pack(s.drop_first(), g)
    }
}

/// The byte stream reassembled from bit groups, consuming
/// `g.spec_groups_per_byte()` groups per byte; a ragged tail shorter than
/// one byte is dropped (the executable unpacker rejects it instead).
pub open spec fn spec_unpack(gs: Seq<u8>, g: ByteSplitGranularity) -> Seq<u8>
    decreases gs.len(),
{
    let k = g.spec_groups_per_byte() as int;
    if gs.len() < k {
        Seq::empty()
    } else {
        seq![spec_byte_of_groups(gs.take(k), g)] + spec_unpack(gs.skip(k), g)
    }
}

/// Reassembling the groups of a byte gives that byte back.
pub proof fn lemma_byte_groups_roundtrip(b: u8, g: ByteSplitGranularity)
    ensures
        spec_byte_of_groups(spec_groups_of_byte(b, g), g) == b,
{
    match g {
        ByteSplitGranularity::OneBit => {
            assert(((((b >> 7) & 0x01) & 0x01) << 7) | ((((b >> 6) & 0x01) & 0x01) << 6)
                | ((((b >> 5) & 0x01) & 0x01) << 5) | ((((b >> 4) & 0x01) & 0x01) << 4)
                | ((((b >> 3) & 0x01) & 0x01) << 3) | ((((b >> 2) & 0x01) & 0x01) << 2)
                | ((((b >> 1) & 0x01) & 0x01) << 1) | ((b & 0x01) & 0x01) == b) by (bit_vector);
        },
        ByteSplitGranularity::TwoBits => {
            assert(((((b >> 6) & 0x03) & 0x03) << 6) | ((((b >> 4) & 0x03) & 0x03) << 4)
                | ((((b >> 2) & 0x03) & 0x03) << 2) | ((b & 0x03) & 0x03) == b) by (bit_vector);
        },
        ByteSplitGranularity::FourBits => {
            assert(((((b >> 4) & 0x0f) & 0x0f) << 4) | ((b & 0x0f) & 0x0f) == b) by (bit_vector);
        },
    }
}

/// The groups of a byte all fit in their `g` bits.
pub proof fn lemma_groups_of_byte_valid(b: u8, g: ByteSplitGranularity)
    ensures
        spec_groups_valid(spec_groups_of_byte(b, g), g),
{
    assert(((b >> 7) & 0x01) & 0x01 == (b >> 7) & 0x01) by (bit_vector);
    assert(((b >> 6) & 0x01) & 0x01 == (b >> 6) & 0x01) by (bit_vector);
    assert(((b >> 5) & 0x01) & 0x01 == (b >> 5) & 0x01) by (bit_vector);
    assert(((b >> 4) & 0x01) & 0x01 == (b >> 4) & 0x01) by (bit_vector);
    assert(((b >> 3) & 0x01) & 0x01 == (b >> 3) & 0x01) by (bit_vector);
    assert(((b >> 2) & 0x01) & 0x01 == (b >> 2) & 0x01) by (bit_vector);
    assert(((b >> 1) & 0x01) & 0x01 == (b >> 1) & 0x01) by (bit_vector);
    assert((b & 0x01) & 0x01 == b & 0x01) by (bit_vector);
    assert(((b >> 6) & 0x03) & 0x03 == (b >> 6) & 0x03) by (bit_vector);
    assert(((b >> 4) & 0x03) & 0x03 == (b >> 4) & 0x03) by (bit_vector);
    assert(((b >> 2) & 0x03) & 0x03 == (b >> 2) & 0x03) by (bit_vector);
    assert((b & 0x03) & 0x03 == b & 0x03) by (bit_vector);
    assert(((b >> 4) & 0x0f) & 0x0f == (b >> 4) & 0x0f) by (bit_vector);
    assert((b & 0x0f) & 0x0f == b & 0x0f) by (bit_vector);
    match g {
        ByteSplitGranularity::OneBit => {},
        ByteSplitGranularity::TwoBits => {},
        ByteSplitGranularity::FourBits => {},
    }
}

/// Packing `s.len()` bytes yields exactly `s.len() * 8 / g` groups.
pub proof fn lemma_pack_len(s: Seq<u8>, g: ByteSplitGranularity)
    ensures
        spec_pack(s, g).len() == s.len() * g.spec_groups_per_byte(),
    decreases s.len(),
{
    if s.len() == 0 {
    } else {
        let k = g.spec_groups_per_byte() as int;
        lemma_pack_len(s.drop_first(), g);
        match g {
            ByteSplitGranularity::OneBit => {
                assert(spec_groups_of_byte(s[0], g).len() == k);
            },
            ByteSplitGranularity::TwoBits => {
                assert(spec_groups_of_byte(s[0], g).len() == k);
            },
            ByteSplitGranularity::FourBits => {
                assert(spec_groups_of_byte(s[0], g).len() == k);
            },
        }
        assert(spec_pack(s, g).len() == k + s.drop_first().len() * k);
        assert(s.drop_first().len() == s.len() - 1);
        assert(k + (s.len() - 1) * k == s.len() * k) by (nonlinear_arith);
    }
}

/// Every group produced by packing fits in its `g` bits.
pub proof fn lemma_pack_valid(s: Seq<u8>, g: ByteSplitGranularity)
    ensures
        spec_groups_valid(spec_pack(s, g), g),
    decreases s.len(),
{
    if s.len() == 0 {
    } else {
        let head = spec_groups_of_byte(s[0], g);
        let rest = spec_pack(s.drop_first(), g);
        lemma_groups_of_byte_valid(s[0], g);
        lemma_pack_valid(s.drop_first(), g);
        assert forall|i: int| 0 <= i < spec_pack(s, g).len() implies
            #[trigger] spec_group_in_range(spec_pack(s, g)[i], g) by {
            if i < head.len() {
                assert(spec_pack(s, g)[i] == head[i]);
            } else {
                assert(spec_pack(s, g)[i] == rest[i - head.len()]);
            }
        }
    }
}

/// Packing one more byte appends that byte's groups.
pub proof fn lemma_pack_push(s: Seq<u8>, b: u8, g: ByteSplitGranularity)
    ensures
        spec_pack(s.push(b), g) == spec_pack(s, g) + spec_groups_of_byte(b, g),
    decreases s.len(),
{
    if s.len() == 0 {
        let e = Seq::<u8>::empty();
        assert(s.push(b).drop_first() =~= e);
        assert(spec_pack(e, g) == e);
        assert(s.push(b)[0] == b);
        assert(spec_pack(s.push(b), g) == spec_groups_of_byte(b, g) + e);
        assert(spec_pack(s, g) == e);
        assert(spec_pack(s.push(b), g) =~= spec_pack(s, g) + spec_groups_of_byte(b, g));
    } else {
        assert(s.push(b)[0] == s[0]);
        assert(s.push(b).drop_first() =~= s.drop_first().push(b));
        lemma_pack_push(s.drop_first(), b, g);
        assert(spec_pack(s.push(b), g) =~= spec_pack(s, g) + spec_groups_of_byte(b, g));
    }
}

/// Unpacking what packing produced gives the original bytes back.
pub proof fn lemma_unpack_pack_roundtrip(s: Seq<u8>, g: ByteSplitGranularity)
    ensures
        spec_unpack(spec_pack(s, g), g) == s,
    decreases s.len(),
{
    let k = g.spec_groups_per_byte() as int;
    if s.len() == 0 {
        assert(spec_unpack(spec_pack(s, g), g) =~= s);
    } else {
        let head = spec_groups_of_byte(s[0], g);
        let rest = spec_pack(s.drop_first(), g);
        lemma_pack_len(s.drop_first(), g);
        assert(spec_pack(s, g).take(k) =~= head);
        assert(spec_pack(s, g).skip(k) =~= rest);
        lemma_byte_groups_roundtrip(s[0], g);
        lemma_unpack_pack_roundtrip(s.drop_first(), g);
        assert(spec_unpack(spec_pack(s, g), g) =~= s);
    }
}

/// Unpacking a whole stream plus one more byte's worth of groups appends the
/// byte those groups form.
pub proof fn lemma_unpack_append(s: Seq<u8>, chunk: Seq<u8>, g: ByteSplitGranularity)
    requires
        (s.len() as int) % (g.spec_groups_per_byte() as int) == 0,
        chunk.len() == g.spec_groups_per_byte(),
    ensures
        spec_unpack(s + chunk, g) == spec_unpack(s, g).push(spec_byte_of_groups(chunk, g)),
    decreases s.len(),
{
    let k = g.spec_groups_per_byte() as int;
    if s.len() == 0 {
        let e = Seq::<u8>::empty();
        assert((s + chunk).take(k) =~= chunk);
        assert((s + chunk).skip(k) =~= e);
        assert(spec_unpack(e, g) == e);
        assert(spec_unpack(s + chunk, g)
            == seq![spec_byte_of_groups((s + chunk).take(k), g)] + e);
        assert(spec_unpack(s, g) == e);
        assert(spec_unpack(s + chunk, g) =~= spec_unpack(s, g).push(spec_byte_of_groups(chunk, g)));
    } else {
        assert(s.len() >= k) by {
            if s.len() < k {
                lemma_fundamental_div_mod_converse(s.len() as int, k, 0, s.len() as int);
            }
        }
        assert((s + chunk).take(k) =~= s.take(k));
        assert((s + chunk).skip(k) =~= s.skip(k) + chunk);
        assert((s.skip(k).len() as int) % k == 0) by {
            lemma_fundamental_div_mod_converse(
                s.len() - k, k, (s.len() as int) / k - 1, 0);
            assert(s.len() == ((s.len() as int) / k) * k) by {
                lemma_fundamental_div_mod_converse(s.len() as int, k, (s.len() as int) / k, 0);
            }
            assert(s.len() - k == ((s.len() as int) / k - 1) * k) by {
                assert(((s.len() as int) / k - 1) * k == ((s.len() as int) / k) * k - k)
                    by (nonlinear_arith);
            }
        }
        lemma_unpack_append(s.skip(k), chunk, g);
        assert(spec_unpack(s + chunk, g) =~= spec_unpack(s, g).push(spec_byte_of_groups(chunk, g)));
    }
}

/// Splits each byte of `data` into `8 / g` bit groups, most significant bits
/// first, in byte order.
pub fn pack_bytes(data: &Vec<u8>, g: ByteSplitGranularity) -> (r: Vec<u8>)
    requires
        data@.len() * g.spec_groups_per_byte() <= usize::MAX,
    ensures
        r@ == spec_pack(data@, g),
        r@.len() == data@.len() * g.spec_groups_per_byte(),
{
    proof {
        lemma_pack_len(data@, g);
    }
    let mut out: Vec<u8> = Vec::new();
    let mut i: usize = 0;
    while i < data.len()
        invariant
            i <= data@.len(),
            out@ == spec_pack(data@.take(i as int), g),
        decreases data@.len() - i,
    {
        let b = data[i];
        match g {
            ByteSplitGranularity::OneBit => {
                out.push((b >> 7) & 0x01);
                out.push((b >> 6) & 0x01);
                out.push((b >> 5) & 0x01);
                out.push((b >> 4) & 0x01);
                out.push((b >> 3) & 0x01);
                out.push((b >> 2) & 0x01);
                out.push((b >> 1) & 0x01);
                out.push(b & 0x01);
            },
            ByteSplitGranularity::TwoBits => {
                out.push((b >> 6) & 0x03);
                out.push((b >> 4) & 0x03);
                out.push((b >> 2) & 0x03);
                out.push(b & 0x03);
            },
            ByteSplitGranularity::FourBits => {
                out.push((b >> 4) & 0x0f);
                out.push(b & 0x0f);
            },
        }
        proof {
            lemma_pack_push(data@.take(i as int), b, g);
            assert(data@.take(i + 1) =~= data@.take(i as int).push(b));
            assert(out@ =~= spec_pack(data@.take(i as int), g) + spec_groups_of_byte(b, g));
        }
        i = i + 1;
    }
    proof {
        assert(data@.take(data@.len() as int) =~= data@);
        lemma_pack_len(data@, g);
    }
    out
}

/// Reassembles bytes from bit groups, `8 / g` groups per byte, most
/// significant bits first. Fails with [`StegError::Format`] when the group
/// count is not a whole number of bytes (a truncated or corrupted stream).
pub fn unpack_groups(groups: &Vec<u8>, g: ByteSplitGranularity) -> (r: Result<Vec<u8>, StegError>)
    ensures
        (groups@.len() as int) % (g.spec_groups_per_byte() as int) == 0 ==> (r matches Ok(v)
            && v@ == spec_unpack(groups@, g)),
        (groups@.len() as int) % (g.spec_groups_per_byte() as int) != 0 ==> (r matches Err(e)
            && e == StegError::Format),
{
    let k: usize = g.groups_per_byte() as usize;
    let mut out: Vec<u8> = Vec::new();
    let mut i: usize = 0;
    while k <= groups.len() - i
        invariant
            2 <= k == g.spec_groups_per_byte(),
            i <= groups@.len(),
            i == out@.len() * k,
            out@ == spec_unpack(groups@.take(i as int), g),
        decreases groups@.len() - i,
    {
        let b: u8 = match g {
            ByteSplitGranularity::OneBit => ((groups[i] & 0x01) << 7)
                | ((groups[i + 1] & 0x01) << 6) | ((groups[i + 2] & 0x01) << 5)
                | ((groups[i + 3] & 0x01) << 4) | ((groups[i + 4] & 0x01) << 3)
                | ((groups[i + 5] & 0x01) << 2) | ((groups[i + 6] & 0x01) << 1)
                | (groups[i + 7] & 0x01),
            ByteSplitGranularity::TwoBits => ((groups[i] & 0x03) << 6)
                | ((groups[i + 1] & 0x03) << 4) | ((groups[i + 2] & 0x03) << 2)
                | (groups[i + 3] & 0x03),
            ByteSplitGranularity::FourBits => ((groups[i] & 0x0f) << 4)
                | (groups[i + 1] & 0x0f),
        };
        proof {
            let chunk = groups@.subrange(i as int, i + k);
            assert(b == spec_byte_of_groups(chunk, g));
            assert((groups@.take(i as int).len() as int) % (k as int) == 0) by {
                lemma_mod_multiples_basic(out@.len() as int, k as int);
            }
            lemma_unpack_append(groups@.take(i as int), chunk, g);
            assert(groups@.take(i + k) =~= groups@.take(i as int) + chunk);
            assert((out@.len() + 1) * k == out@.len() * k + k) by (nonlinear_arith);
        }
        out.push(b);
        i = i + k;
    }
    if i != groups.len() {
        proof {
            lemma_mod_multiples_basic(out@.len() as int, k as int);
            assert((groups@.len() as int) % (k as int) != 0) by {
                lemma_fundamental_div_mod_converse(
                    groups@.len() as int, k as int, out@.len() as int,
                    groups@.len() - i);
            }
        }
        return Err(StegError::Format);
    }
    proof {
        assert(groups@.take(groups@.len() as int) =~= groups@);
        lemma_mod_multiples_basic(out@.len() as int, k as int);
    }
    Ok(out)
}

} // verus!
