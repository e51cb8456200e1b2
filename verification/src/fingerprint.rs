//! A short fingerprint of the engine's bytes, for telling engines apart. It is
//! no cryptographic hash.

use crate::text::{hex, hex_limit, hex_text, law_hex_round_trip};
use std::collections::hash_map::DefaultHasher;
use std::hash::Hasher;
use vstd::arithmetic::div_mod::lemma_div_denominator;
use vstd::arithmetic::power::{lemma_pow_positive, pow};
use vstd::prelude::*;
use vstd::std_specs::hash::DefaultHasherAdditionalSpecFns;

verus! {

/// The bytes of a number, the least significant first.
pub open spec fn little_endian(n: usize) -> Seq<u8> {
    Seq::new((usize::BITS / 8) as nat, |i: int| (n as int / pow(256, i as nat) % 256) as u8)
}

/// The bytes of a number on a machine of the given byte order.
pub open spec fn machine_bytes(n: usize, big_endian: bool) -> Seq<u8> {
    if big_endian {
        little_endian(n).reverse()
    } else {
        little_endian(n)
    }
}

/// Writes the bytes of a number, the least significant first.
fn little_endian_bytes(n: usize) -> (r: Vec<u8>)
    ensures
        r@ == little_endian(n),
{
    let mut r: Vec<u8> = Vec::new();
    let mut rest: usize = n;
    let mut i: u32 = 0;
    proof {
        reveal(pow);
        assert(n as int / pow(256, 0) == n);
    }
    while i < usize::BITS / 8
        invariant
            i <= usize::BITS / 8,
            r@ == little_endian(n).take(i as int),
            rest == n as int / pow(256, i as nat),
        decreases usize::BITS / 8 - i,
    {
        r.push((rest % 256) as u8);
        proof {
            lemma_pow_positive(256, i as nat);
            lemma_div_denominator(n as int, pow(256, i as nat), 256);
            reveal(pow);
            assert(pow(256, (i + 1) as nat) == 256 * pow(256, i as nat));
            assert(pow(256, i as nat) * 256 == 256 * pow(256, i as nat)) by (nonlinear_arith);
            assert(r@ =~= little_endian(n).take(i + 1));
        }
        rest = rest / 256;
        i = i + 1;
    }
    assert(r@ =~= little_endian(n));
    r
}

/// Writes the bytes of a number as a machine of the given byte order has them.
fn native_bytes(n: usize, big_endian: bool) -> (r: Vec<u8>)
    ensures
        r@ == machine_bytes(n, big_endian),
{
    let little = little_endian_bytes(n);
    if !big_endian {
        return little;
    }
    let mut r: Vec<u8> = Vec::new();
    let mut left: usize = little.len();
    while left > 0
        invariant
            left <= little@.len(),
            r@ == little@.reverse().take(little@.len() - left),
        decreases left,
    {
        left = left - 1;
        r.push(little[left]);
        assert(r@ =~= little@.reverse().take(little@.len() - left));
    }
    assert(r@ =~= little@.reverse());
    r
}

/// The hash of bytes on a machine of the given byte order: that of their length
/// and of the bytes themselves, written one after the other.
pub open spec fn hash_of(bytes: Seq<u8>, big_endian: bool) -> u64 {
    DefaultHasher::spec_finish(seq![machine_bytes(bytes.len() as usize, big_endian), bytes])
}

/// The fingerprint of bytes on a machine of the given byte order: the hash in 16
/// hexadecimal digits.
pub open spec fn fingerprint_of(bytes: Seq<u8>, big_endian: bool) -> Seq<char> {
    hex(hash_of(bytes, big_endian) as nat, 16)
}

/// The fingerprint of the engine's bytes, on a machine of the given byte order.
pub fn fingerprint(bytes: &[u8], big_endian: bool) -> (r: String)
    ensures
        r@ == fingerprint_of(bytes@, big_endian),
        r@ == hex(
            DefaultHasher::spec_finish(
                seq![
                    Seq::new(
                        (usize::BITS / 8) as nat,
                        |i: int|
                            (bytes@.len() as int / pow(
                                256,
                                (if big_endian {
                                    usize::BITS / 8 - 1 - i
                                } else {
                                    i
                                }) as nat,
                            ) % 256) as u8,
                    ),
                    bytes@,
                ],
            ) as nat,
            16,
        ),
{
    let mut hasher = DefaultHasher::new();
    let length = native_bytes(bytes.len(), big_endian);
    proof {
        law_fingerprint_is_the_hash_of_every_byte(
            bytes@,
            big_endian,
            Seq::new(
                (usize::BITS / 8) as nat,
                |i: int|
                    (bytes@.len() as int / pow(
                        256,
                        (if big_endian {
                            usize::BITS / 8 - 1 - i
                        } else {
                            i
                        }) as nat,
                    ) % 256) as u8,
            ),
        );
    }
    hasher.write(length.as_slice());
    hasher.write(bytes);
    assert(hasher@ =~= seq![length@, bytes@]);
    hex_text(hasher.finish(), 16)
}

/// Equal bytes have equal fingerprints. On one machine, two fingerprints are
/// equal exactly where the hashes are, and each has 16 digits.
pub proof fn law_fingerprints_tell_hashes_apart(a: Seq<u8>, b: Seq<u8>, big_endian: bool)
    ensures
        a == b ==> fingerprint_of(a, big_endian) == fingerprint_of(b, big_endian),
        fingerprint_of(a, big_endian).len() == 16,
        fingerprint_of(a, big_endian) == fingerprint_of(b, big_endian) <==> hash_of(a, big_endian)
            == hash_of(b, big_endian),
{
    reveal_with_fuel(hex_limit, 17);
    law_hex_round_trip(hash_of(a, big_endian) as nat, 16);
    law_hex_round_trip(hash_of(b, big_endian) as nat, 16);
}

/// The fingerprint is the hash of the length, in the bytes of a machine of the
/// given byte order, and of every byte after it, in 16 hexadecimal digits.
pub proof fn law_fingerprint_is_the_hash_of_every_byte(
    bytes: Seq<u8>,
    big_endian: bool,
    length: Seq<u8>,
)
    requires
        bytes.len() <= usize::MAX,
        length.len() == usize::BITS / 8,
        forall|i: int|
            0 <= i < length.len() ==> #[trigger] length[i] == (bytes.len() as int / pow(
                256,
                (if big_endian {
                    usize::BITS / 8 - 1 - i
                } else {
                    i
                }) as nat,
            ) % 256) as u8,
    ensures
        fingerprint_of(bytes, big_endian) == hex(
            DefaultHasher::spec_finish(seq![length, bytes]) as nat,
            16,
        ),
{
    assert(length =~= machine_bytes(bytes.len() as usize, big_endian));
}

} // verus!
