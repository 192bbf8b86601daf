//! Position records and their byte codec.
//!
//! A position record is a user's stake snapshot: the staked amount, the
//! reward-per-share checkpoint at which it last crystallized rewards, and
//! the epoch it entered the farm. Records travel as token attributes, so
//! they are serialized to a fixed-width little-endian byte string with a
//! leading format-version byte; records of a deprecated format fail to
//! decode and must be migrated.

use vstd::prelude::*;
use vstd::arithmetic::div_mod::{
    lemma_fundamental_div_mod, lemma_mod_division_less_than_divisor, lemma_multiply_divide_lt,
};
use vstd::arithmetic::power::pow;

verus! {

/// Current record format version. Records stamped with an older version
/// lack the entering-epoch field and must be migrated before use.
pub const POSITION_FORMAT_VERSION: u8 = 2;

/// One user's stake snapshot, carried as a transferable token's attributes.
/// A record is never mutated in place: every operation consumes it and
/// issues a fresh one.
#[derive(Clone, Copy, PartialEq, Eq, Structural, Debug)]
pub struct Position {
    /// Quantity of the farming asset backing this record.
    pub staked_amount: u64,
    /// Global reward-per-share at the moment this record last synced;
    /// newly accrued reward is
    /// `(current_rps - checkpoint) * staked_amount / division_safety`.
    pub reward_per_share_checkpoint: u128,
    /// Epoch at which the stake entered the farm.
    pub entering_epoch: u64,
}

/// Little-endian byte string of `v`, exactly `n` bytes wide.
pub open spec fn le_bytes(v: int, n: nat) -> Seq<u8>
    decreases n,
{
    if n == 0 {
        Seq::empty()
    } else {
        seq![(v % 256) as u8] + le_bytes(v / 256, (n - 1) as nat)
    }
}

/// The value a little-endian byte string stands for.
pub open spec fn le_value(s: Seq<u8>) -> int
    decreases s.len(),
{
    if s.len() == 0 {
        0
    } else {
        s[0] + 256 * le_value(s.skip(1))
    }
}

/// `256^(m+1) == 256 * 256^m`, the unfolding step the width inductions use.
pub proof fn lemma_pow256_step(m: nat)
    ensures
        pow(256, (m + 1) as nat) == 256 * pow(256, m),
        pow(256, 0) == 1,
{
    vstd::arithmetic::power::lemma_pow_adds(256, 1nat, m);
    vstd::arithmetic::power::lemma_pow1(256);
    vstd::arithmetic::power::lemma_pow0(256);
}

pub proof fn lemma_le_bytes_len(v: int, n: nat)
    ensures
        le_bytes(v, n).len() == n,
    decreases n,
{
    if n > 0 {
        lemma_le_bytes_len(v / 256, (n - 1) as nat);
    }
}

/// A byte string's value fits in its width.
pub proof fn lemma_le_value_bound(s: Seq<u8>)
    ensures
        0 <= le_value(s) < pow(256, s.len()),
    decreases s.len(),
{
    vstd::arithmetic::power::lemma_pow0(256);
    if s.len() == 0 {
    } else {
        lemma_le_value_bound(s.skip(1));
        lemma_pow256_step((s.len() - 1) as nat);
    }
}

/// Decoding inverts encoding for any value that fits in the width.
pub proof fn lemma_le_round_trip(v: int, n: nat)
    requires
        0 <= v < pow(256, n),
    ensures
        le_value(le_bytes(v, n)) == v,
    decreases n,
{
    vstd::arithmetic::power::lemma_pow0(256);
    if n > 0 {
        lemma_fundamental_div_mod(v, 256);
        lemma_pow256_step((n - 1) as nat);
        assert(pow(256, n) == 256 * pow(256, (n - 1) as nat));
        lemma_multiply_divide_lt(v, 256, pow(256, (n - 1) as nat));
        lemma_le_round_trip(v / 256, (n - 1) as nat);
        lemma_le_bytes_len(v / 256, (n - 1) as nat);
        assert(le_bytes(v, n).skip(1) =~= le_bytes(v / 256, (n - 1) as nat));
        lemma_mod_division_less_than_divisor(v, 256);
    }
}

/// `256^8` and `256^16`, the bounds of the two widths the codec uses.
pub proof fn lemma_pow256_values()
    ensures
        pow(256, 8) == 0x1_0000_0000_0000_0000,
        pow(256, 16) == 0x1_0000_0000_0000_0000_0000_0000_0000_0000,
{
    reveal_with_fuel(pow, 17);
}

/// Appends the `n`-byte little-endian form of `v`.
pub fn push_le(out: &mut Vec<u8>, v: u128, n: usize)
    requires
        (v as int) < pow(256, n as nat),
    ensures
        final(out)@ == old(out)@ + le_bytes(v as int, n as nat),
{
    let ghost base = old(out)@;
    let ghost full = le_bytes(v as int, n as nat);
    let mut x: u128 = v;
    let mut k: usize = 0;
    proof {
        lemma_le_bytes_len(v as int, n as nat);
    }
    while k < n
        invariant
            k <= n,
            out@.len() == base.len() + k,
            out@.subrange(0, base.len() as int) == base,
            full == out@.subrange(base.len() as int, out@.len() as int)
                + le_bytes(x as int, (n - k) as nat),
        decreases n - k,
    {
        let ghost prev = out@;
        let ghost x_prev = x as int;
        out.push((x % 256) as u8);
        x = x / 256;
        k = k + 1;
        proof {
            assert(le_bytes(x_prev, (n - (k - 1)) as nat)
                == seq![(x_prev % 256) as u8] + le_bytes(x_prev / 256, (n - k) as nat));
            assert(out@.subrange(0, base.len() as int) =~= base);
            assert(out@.subrange(base.len() as int, out@.len() as int)
                =~= prev.subrange(base.len() as int, prev.len() as int)
                    + seq![(x_prev % 256) as u8]);
            assert(full == out@.subrange(base.len() as int, out@.len() as int)
                + le_bytes(x as int, (n - k) as nat));
        }
    }
    proof {
        assert(out@ =~= base + full);
    }
}

/// Reads the value of `n` little-endian bytes starting at `off`.
pub fn read_le(b: &Vec<u8>, off: usize, n: usize) -> (r: u128)
    requires
        off + n <= b.len(),
        n <= 16,
    ensures
        r == le_value(b@.subrange(off as int, off + n)),
{
    proof {
        lemma_pow256_values();
        lemma_pow256_step(0);
    }
    let mut val: u128 = 0;
    let mut i: usize = n;
    while i > 0
        invariant
            i <= n,
            n <= 16,
            off + n <= b.len(),
            val == le_value(b@.subrange(off + i, off + n)),
            val < pow(256, (n - i) as nat),
            pow(256, 16) == 0x1_0000_0000_0000_0000_0000_0000_0000_0000,
        decreases i,
    {
        i = i - 1;
        proof {
            let s = b@.subrange(off + i, off + n);
            assert(s.skip(1) =~= b@.subrange(off + i + 1, off + n));
            lemma_pow256_step((n - i - 1) as nat);
            assert(pow(256, (n - i) as nat) == 256 * pow(256, (n - i - 1) as nat));
            vstd::arithmetic::power::lemma_pow_increases(256, (n - i) as nat, 16);
        }
        val = val * 256 + (b[off + i] as u128);
    }
    proof {
        assert(b@.subrange(off + i, off + n) =~= b@.subrange(off as int, off + n));
    }
    val
}

/// The byte form of a position record: a version byte, then the amount,
/// checkpoint and epoch, each fixed-width little-endian.
pub open spec fn encoded_position(p: Position) -> Seq<u8> {
    seq![POSITION_FORMAT_VERSION] + le_bytes(p.staked_amount as int, 8)
        + le_bytes(p.reward_per_share_checkpoint as int, 16)
        + le_bytes(p.entering_epoch as int, 8)
}

/// What a byte string decodes to: a record exactly when it is 33 bytes of
/// the current format version, and nothing otherwise.
pub open spec fn decoded_position(s: Seq<u8>) -> Option<Position> {
    if s.len() == 33 && s[0] == POSITION_FORMAT_VERSION {
        Some(Position {
            staked_amount: le_value(s.subrange(1, 9)) as u64,
            reward_per_share_checkpoint: le_value(s.subrange(9, 25)) as u128,
            entering_epoch: le_value(s.subrange(25, 33)) as u64,
        })
    } else {
        None
    }
}

/// Serializes a record to its 33-byte attribute form.
pub fn encode_position(p: &Position) -> (r: Vec<u8>)
    ensures
        r@ == encoded_position(*p),
        r@.len() == 33,
{
    proof {
        lemma_pow256_values();
        lemma_le_bytes_len(p.staked_amount as int, 8);
        lemma_le_bytes_len(p.reward_per_share_checkpoint as int, 16);
        lemma_le_bytes_len(p.entering_epoch as int, 8);
    }
    let mut out: Vec<u8> = Vec::new();
    out.push(POSITION_FORMAT_VERSION);
    push_le(&mut out, p.staked_amount as u128, 8);
    push_le(&mut out, p.reward_per_share_checkpoint, 16);
    push_le(&mut out, p.entering_epoch as u128, 8);
    proof {
        assert(out@ =~= encoded_position(*p));
    }
    out
}

/// Parses a 33-byte attribute string back into a record; rejects any other
/// length and any other format version.
pub fn decode_position(b: &Vec<u8>) -> (r: Option<Position>)
    ensures
        r == decoded_position(b@),
{
    if b.len() != 33 {
        return None;
    }
    if b[0] != POSITION_FORMAT_VERSION {
        return None;
    }
    proof {
        lemma_pow256_values();
        lemma_le_value_bound(b@.subrange(1, 9));
        lemma_le_value_bound(b@.subrange(9, 25));
        lemma_le_value_bound(b@.subrange(25, 33));
    }
    let staked_amount = read_le(b, 1, 8) as u64;
    let checkpoint = read_le(b, 9, 16);
    let entering_epoch = read_le(b, 25, 8) as u64;
    Some(Position {
        staked_amount,
        reward_per_share_checkpoint: checkpoint,
        entering_epoch,
    })
}

/// The codec loses nothing: decoding an encoded record yields the record.
pub proof fn lemma_position_round_trip(p: Position)
    ensures
        decoded_position(encoded_position(p)) == Some(p),
{
    lemma_pow256_values();
    let s = encoded_position(p);
    lemma_le_bytes_len(p.staked_amount as int, 8);
    lemma_le_bytes_len(p.reward_per_share_checkpoint as int, 16);
    lemma_le_bytes_len(p.entering_epoch as int, 8);
    assert(s.subrange(1, 9) =~= le_bytes(p.staked_amount as int, 8));
    assert(s.subrange(9, 25) =~= le_bytes(p.reward_per_share_checkpoint as int, 16));
    assert(s.subrange(25, 33) =~= le_bytes(p.entering_epoch as int, 8));
    lemma_le_round_trip(p.staked_amount as int, 8);
    lemma_le_round_trip(p.reward_per_share_checkpoint as int, 16);
    lemma_le_round_trip(p.entering_epoch as int, 8);
}

} // verus!
