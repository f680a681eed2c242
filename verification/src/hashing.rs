//! SHA-256 digests, their hex encoding, and the leading-zero-nibble
//! difficulty test that proof-of-work mining searches for.

use sha2::Digest;
use vstd::prelude::*;

verus! {

/// The SHA-256 digest of a byte sequence. The digest is a function of the
/// input bytes alone; it is named here and computed only by the sha2 crate,
/// so contracts speak of it through this name.
pub uninterp spec fn sha256_of(input: Seq<u8>) -> Seq<u8>;

/// Relies on sha2::Sha256 through digest::Digest::digest: the digest is a
/// pure function of the input bytes and is always 32 bytes long.
#[verifier::external_body]
pub fn sha256(input: &Vec<u8>) -> (r: Vec<u8>)
    ensures
        r@ == sha256_of(input@),
        r@.len() == 32,
{
    sha2::Sha256::digest(input).to_vec()
}

/// The sixteen lowercase hex digits, in value order.
pub open spec fn hex_digit(n: int) -> char
    recommends
        0 <= n < 16,
{
    seq!['0', '1', '2', '3', '4', '5', '6', '7', '8', '9', 'a', 'b', 'c', 'd', 'e', 'f'][n]
}

/// Lowercase hex encoding: each byte becomes two digits, high nibble first.
pub open spec fn hex_of(bytes: Seq<u8>) -> Seq<char> {
    Seq::new(
        bytes.len() * 2,
        |i: int|
            if i % 2 == 0 {
                hex_digit(bytes[i / 2] as int / 16)
            } else {
                hex_digit(bytes[i / 2] as int % 16)
            },
    )
}

/// Relies on hex::encode: each byte is encoded as exactly two lowercase hex
/// digits, high nibble first.
#[verifier::external_body]
pub fn hex_encode(bytes: &Vec<u8>) -> (r: String)
    ensures
        r@ == hex_of(bytes@),
{
    hex::encode(bytes)
}

/// The `i`-th hex nibble of a byte sequence, counting from the front:
/// nibble `2k` is the high half of byte `k`, nibble `2k + 1` the low half.
pub open spec fn nibble(h: Seq<u8>, i: int) -> u8
    recommends
        0 <= i < 2 * h.len(),
{
    if i % 2 == 0 {
        (h[i / 2] / 16) as u8
    } else {
        (h[i / 2] % 16) as u8
    }
}

/// A digest meets difficulty `d` when its first `d` hex nibbles are zero.
/// More nibbles than the digest has can never be met.
pub open spec fn meets_difficulty(h: Seq<u8>, d: nat) -> bool {
    d <= 2 * h.len() && forall|i: int| 0 <= i < d ==> nibble(h, i) == 0
}

/// Byte-wise difficulty test over a 32-byte digest: whole zero bytes count
/// as two nibbles, then an odd difficulty checks the next high nibble.
pub fn check_difficulty(h: &Vec<u8>, d: u32) -> (r: bool)
    requires
        h@.len() == 32,
    ensures
        r == meets_difficulty(h@, d as nat),
{
    if d > 64 {
        return false;
    }
    let full: usize = (d / 2) as usize;
    let mut i: usize = 0;
    while i < full
        invariant
            h@.len() == 32,
            d <= 64,
            full == d / 2,
            0 <= i <= full,
            forall|j: int| 0 <= j < 2 * i ==> nibble(h@, j) == 0,
        decreases full - i,
    {
        let b = h[i];
        if b != 0 {
            proof {
                assert(h@[i as int] == 16 * (h@[i as int] / 16) + h@[i as int] % 16);
                assert(nibble(h@, 2 * (i as int)) != 0 || nibble(h@, 2 * (i as int) + 1) != 0);
                assert(2 * (i as int) + 1 < d);
            }
            return false;
        }
        proof {
            assert(nibble(h@, 2 * (i as int)) == 0);
            assert(nibble(h@, 2 * (i as int) + 1) == 0);
            assert forall|j: int| 0 <= j < 2 * (i + 1) implies nibble(h@, j) == 0 by {
                if j == 2 * (i as int) || j == 2 * (i as int) + 1 {
                } else {
                    assert(0 <= j < 2 * i);
                }
            }
        }
        i += 1;
    }
    if d % 2 == 1 {
        let b = h[full];
        if b / 16 != 0 {
            proof {
                assert(nibble(h@, 2 * (full as int)) != 0);
                assert(2 * (full as int) < d);
            }
            return false;
        }
        proof {
            assert(nibble(h@, 2 * (full as int)) == 0);
        }
    }
    proof {
        assert forall|j: int| 0 <= j < d implies nibble(h@, j) == 0 by {
            if j < 2 * (full as int) {
            } else {
                assert(j == 2 * (full as int) && d % 2 == 1);
            }
        }
    }
    true
}

/// A digest that meets difficulty `d` hex-encodes to a string whose first
/// `d` characters are all `'0'`.
pub proof fn lemma_difficulty_hex_zeros(h: Seq<u8>, d: nat)
    requires
        meets_difficulty(h, d),
    ensures
        forall|i: int| 0 <= i < d ==> hex_of(h)[i] == '0',
{
    assert forall|i: int| 0 <= i < d implies hex_of(h)[i] == '0' by {
        assert(nibble(h, i) == 0);
        if i % 2 == 0 {
            assert(hex_of(h)[i] == hex_digit(h[i / 2] as int / 16));
        } else {
            assert(hex_of(h)[i] == hex_digit(h[i / 2] as int % 16));
        }
        assert(hex_digit(0) == '0');
    }
}

} // verus!
