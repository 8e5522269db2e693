//! The commitment engine: a binding, tamper-evident digest over
//! (recipient, amount, salt).
//!
//! The commitment of a triple is the SHA-256 digest of the canonical
//! concatenation: the recipient's serialized bytes, the amount as a 16-byte
//! big-endian integer, and the raw salt bytes. Hiding rests entirely on the
//! salt's secrecy; this is a plain pre-image hiding hash, not a
//! zero-knowledge proof.

use vstd::prelude::*;
use vstd::arithmetic::div_mod::lemma_div_multiples_vanish;
use crate::bytes::{bytes_eq, push_all};
use crate::errors::QuickexError;
use sha2::Digest;

verus! {

/// Longest salt, in bytes, that a commitment accepts.
pub const MAX_SALT_LEN: usize = 256;

/// 256 raised to the power `n`.
pub open spec fn pow256(n: nat) -> int
    decreases n,
{
    if n == 0 {
        1
    } else {
        256 * pow256((n - 1) as nat)
    }
}

proof fn lemma_pow256_pos(n: nat)
    ensures
        pow256(n) >= 1,
    decreases n,
{
    if n > 0 {
        lemma_pow256_pos((n - 1) as nat);
    }
}

/// The 16-byte big-endian encoding of a non-negative amount: byte `i` holds
/// the `(15 - i)`-th base-256 digit.
pub open spec fn amount_be_bytes(v: int) -> Seq<u8> {
    Seq::new(16, |i: int| ((v / pow256((15 - i) as nat)) % 256) as u8)
}

/// The canonical pre-image that is hashed: recipient bytes, then the
/// fixed-width big-endian amount, then the raw salt.
pub open spec fn preimage_of(owner: Seq<u8>, amount: i128, salt: Seq<u8>) -> Seq<u8> {
    owner + amount_be_bytes(amount as int) + salt
}

/// The SHA-256 digest of a byte sequence, named but not written out: the
/// trusted wrapper below states that the executable hash returns it.
pub uninterp spec fn sha256_of(data: Seq<u8>) -> Seq<u8>;

/// Relies on sha2::Sha256 through sha2::Digest::digest: SHA-256 is a
/// function of the input bytes alone, and its digest is 32 bytes long.
#[verifier::external_body]
fn sha256(data: &Vec<u8>) -> (r: Vec<u8>)
    ensures
        r@ == sha256_of(data@),
        r@.len() == 32,
{
    let digest = sha2::Sha256::digest(data.as_slice());
    digest.to_vec()
}

/// The commitment bound to a (recipient, amount, salt) triple.
pub open spec fn commitment_of(owner: Seq<u8>, amount: i128, salt: Seq<u8>) -> Seq<u8> {
    sha256_of(preimage_of(owner, amount, salt))
}

/// The inputs a commitment accepts: a non-negative amount and a salt of at
/// most `MAX_SALT_LEN` bytes.
pub open spec fn valid_commit_inputs(amount: i128, salt: Seq<u8>) -> bool {
    0 <= amount && salt.len() <= MAX_SALT_LEN
}

/// What it means for a commitment value to verify against a claimed triple.
pub open spec fn commitment_verifies(
    commitment: Seq<u8>,
    owner: Seq<u8>,
    amount: i128,
    salt: Seq<u8>,
) -> bool {
    valid_commit_inputs(amount, salt) && commitment == commitment_of(owner, amount, salt)
}

/// Encodes a non-negative amount as 16 big-endian bytes.
fn amount_to_be_bytes(amount: i128) -> (r: Vec<u8>)
    requires
        0 <= amount,
    ensures
        r@ == amount_be_bytes(amount as int),
{
    let v: u128 = amount as u128;
    // 256^15, the weight of the most significant byte.
    let mut d: u128 = 0x1000000000000000000000000000000;
    proof {
        reveal_with_fuel(pow256, 17);
        assert(d as int == pow256(15));
    }
    let mut out: Vec<u8> = Vec::new();
    let mut k: usize = 0;
    while k < 16
        invariant
            k <= 16,
            0 <= amount,
            v == amount as u128,
            k < 16 ==> d as int == pow256((15 - k) as nat),
            out@.len() == k as int,
            forall|i: int| 0 <= i < k ==> out@[i] == amount_be_bytes(amount as int)[i],
        decreases 16 - k,
    {
        proof {
            lemma_pow256_pos((15 - k) as nat);
        }
        out.push(((v / d) % 256) as u8);
        proof {
            assert(out@[k as int] == amount_be_bytes(amount as int)[k as int]);
            if k < 15 {
                assert(pow256((15 - k) as nat) == 256 * pow256((14 - k) as nat));
                lemma_pow256_pos((14 - k) as nat);
                lemma_div_multiples_vanish(pow256((14 - k) as nat), 256);
                assert(d as int / 256 == pow256((14 - k) as nat));
            }
        }
        d = d / 256;
        k += 1;
    }
    proof {
        assert(out@ =~= amount_be_bytes(amount as int));
    }
    out
}

/// Builds the canonical pre-image for a triple with a non-negative amount.
fn build_preimage(owner: &Vec<u8>, amount: i128, salt: &Vec<u8>) -> (r: Vec<u8>)
    requires
        0 <= amount,
    ensures
        r@ == preimage_of(owner@, amount, salt@),
{
    let mut data: Vec<u8> = Vec::new();
    push_all(&mut data, owner);
    let encoded = amount_to_be_bytes(amount);
    push_all(&mut data, &encoded);
    push_all(&mut data, salt);
    proof {
        assert(Seq::<u8>::empty() + owner@ =~= owner@);
    }
    data
}

/// Creates the commitment for `(owner, amount, salt)`.
///
/// Fails with `InvalidAmount` exactly when the amount is negative, and with
/// `InvalidSalt` exactly when the amount is admissible but the salt is
/// longer than `MAX_SALT_LEN` bytes. On success the returned digest is the
/// commitment of the triple, 32 bytes long.
pub fn create_amount_commitment(owner: &Vec<u8>, amount: i128, salt: &Vec<u8>) -> (r: Result<
    Vec<u8>,
    QuickexError,
>)
    ensures
        match r {
            Ok(c) => valid_commit_inputs(amount, salt@) && c@ == commitment_of(
                owner@,
                amount,
                salt@,
            ) && c@.len() == 32,
            Err(e) => !valid_commit_inputs(amount, salt@) && ((amount < 0 && e
                == QuickexError::InvalidAmount) || (0 <= amount && salt@.len() > MAX_SALT_LEN && e
                == QuickexError::InvalidSalt)),
        },
{
    if amount < 0 {
        return Err(QuickexError::InvalidAmount);
    }
    if salt.len() > MAX_SALT_LEN {
        return Err(QuickexError::InvalidSalt);
    }
    let data = build_preimage(owner, amount, salt);
    Ok(sha256(&data))
}

/// Recomputes the commitment of the claimed triple and compares it
/// byte-for-byte with `commitment`.
///
/// Returns `false`, and never fails, on any mismatch — a tampered owner,
/// amount or salt, as well as an inadmissible amount or salt.
pub fn verify_amount_commitment(
    commitment: &Vec<u8>,
    owner: &Vec<u8>,
    amount: i128,
    salt: &Vec<u8>,
) -> (r: bool)
    ensures
        r == commitment_verifies(commitment@, owner@, amount, salt@),
{
    if amount < 0 {
        return false;
    }
    if salt.len() > MAX_SALT_LEN {
        return false;
    }
    let data = build_preimage(owner, amount, salt);
    let recomputed = sha256(&data);
    bytes_eq(commitment, &recomputed)
}

/// Round trip: a commitment created from any admissible triple verifies
/// against that same triple.
pub proof fn lemma_commit_verify_round_trip(owner: Seq<u8>, amount: i128, salt: Seq<u8>)
    requires
        0 <= amount,
        salt.len() <= MAX_SALT_LEN,
    ensures
        commitment_verifies(commitment_of(owner, amount, salt), owner, amount, salt),
{
}

} // verus!
