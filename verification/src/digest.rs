//! The fixed-length content digest.
//!
//! An address is the 32-byte digest of a record's canonical bytes. The digest
//! is built from four independent byte-folding lanes; each lane starts from
//! the same offset, is distinguished by a lane tag, and absorbs the input one
//! byte at a time. The digest is a pure function of its input, so equal
//! canonical bytes always yield equal addresses.

use vstd::prelude::*;

verus! {

/// The starting state of every lane.
pub const LANE_OFFSET: u64 = 0xcbf2_9ce4_8422_2325;

/// The odd multiplier that stirs a lane after each absorbed byte.
pub const LANE_PRIME: u64 = 0x0000_0100_0000_01b3;

/// The number of bytes in a digest, and so in a well-formed address.
pub const DIGEST_LEN: usize = 32;

/// One step of a lane: absorb one byte into the running state.
pub open spec fn lane_step(h: u64, b: u8) -> u64 {
    vstd::wrapping::u64_specs::wrapping_mul(h ^ (b as u64), LANE_PRIME)
}

/// The state of the lane tagged `tag` after absorbing all of `s`.
pub open spec fn lane_state(tag: u8, s: Seq<u8>) -> u64
    decreases s.len(),
{
    if s.len() == 0 {
        lane_step(LANE_OFFSET, tag)
    } else {
        lane_step(lane_state(tag, s.drop_last()), s.last())
    }
}

/// The big-endian bytes of a 64-bit lane state.
pub open spec fn be_bytes_of(x: u64) -> Seq<u8> {
    seq![
        (((x as int) / 0x100_0000_0000_0000) % 0x100) as u8,
        (((x as int) / 0x1_0000_0000_0000) % 0x100) as u8,
        (((x as int) / 0x100_0000_0000) % 0x100) as u8,
        (((x as int) / 0x1_0000_0000) % 0x100) as u8,
        (((x as int) / 0x100_0000) % 0x100) as u8,
        (((x as int) / 0x1_0000) % 0x100) as u8,
        (((x as int) / 0x100) % 0x100) as u8,
        ((x as int) % 0x100) as u8,
    ]
}

/// The 32-byte digest of `s`: the big-endian states of the four lanes.
pub open spec fn digest_of(s: Seq<u8>) -> Seq<u8> {
    be_bytes_of(lane_state(0, s)) + be_bytes_of(lane_state(1, s)) + be_bytes_of(lane_state(2, s))
        + be_bytes_of(lane_state(3, s))
}

/// A digest always has exactly `DIGEST_LEN` bytes.
pub proof fn lemma_digest_len(s: Seq<u8>)
    ensures
        digest_of(s).len() == DIGEST_LEN,
{
    assert(be_bytes_of(lane_state(0, s)).len() == 8);
    assert(be_bytes_of(lane_state(1, s)).len() == 8);
    assert(be_bytes_of(lane_state(2, s)).len() == 8);
    assert(be_bytes_of(lane_state(3, s)).len() == 8);
}

fn lane_step_exec(h: u64, b: u8) -> (r: u64)
    ensures
        r == lane_step(h, b),
{
    (h ^ (b as u64)).wrapping_mul(LANE_PRIME)
}

fn lane_state_exec(tag: u8, s: &Vec<u8>) -> (r: u64)
    ensures
        r == lane_state(tag, s@),
{
    let mut h: u64 = lane_step_exec(LANE_OFFSET, tag);
    assert(s@.subrange(0, 0) =~= Seq::<u8>::empty());
    let mut i: usize = 0;
    while i < s.len()
        invariant
            i <= s@.len(),
            h == lane_state(tag, s@.subrange(0, i as int)),
        decreases s@.len() - i,
    {
        proof {
            assert(s@.subrange(0, i + 1).drop_last() =~= s@.subrange(0, i as int));
            assert(s@.subrange(0, i + 1).last() == s@[i as int]);
        }
        h = lane_step_exec(h, s[i]);
        i = i + 1;
    }
    proof {
        assert(s@.subrange(0, s@.len() as int) =~= s@);
    }
    h
}

fn push_be_bytes(out: &mut Vec<u8>, x: u64)
    ensures
        final(out)@ == old(out)@ + be_bytes_of(x),
{
    out.push(((x / 0x100_0000_0000_0000u64) % 0x100) as u8);
    out.push(((x / 0x1_0000_0000_0000u64) % 0x100) as u8);
    out.push(((x / 0x100_0000_0000u64) % 0x100) as u8);
    out.push(((x / 0x1_0000_0000u64) % 0x100) as u8);
    out.push(((x / 0x100_0000u64) % 0x100) as u8);
    out.push(((x / 0x1_0000u64) % 0x100) as u8);
    out.push(((x / 0x100u64) % 0x100) as u8);
    out.push((x % 0x100u64) as u8);
    assert(out@ =~= old(out)@ + be_bytes_of(x));
}

/// Computes the 32-byte digest of `bytes`.
pub fn compute_digest(bytes: &Vec<u8>) -> (r: Vec<u8>)
    ensures
        r@ == digest_of(bytes@),
{
    let mut out: Vec<u8> = Vec::new();
    let lane0 = lane_state_exec(0, bytes);
    push_be_bytes(&mut out, lane0);
    let lane1 = lane_state_exec(1, bytes);
    push_be_bytes(&mut out, lane1);
    let lane2 = lane_state_exec(2, bytes);
    push_be_bytes(&mut out, lane2);
    let lane3 = lane_state_exec(3, bytes);
    push_be_bytes(&mut out, lane3);
    assert(out@ =~= digest_of(bytes@));
    out
}

} // verus!
