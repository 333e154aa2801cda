//! Addresses for peers that have none.
//!
//! A tunnelled stream has no socket address, and giving every peer 127.0.0.1
//! would merge them into one client. Each peer's key is mixed down to an address
//! in 100.64.0.0/10 instead.

use vstd::prelude::*;

verus! {

/// An IPv4 address, as a number, and a port.
#[derive(Debug, Clone, Copy, PartialEq, Eq, Structural)]
pub struct SyntheticAddr {
    pub ip: u32,
    pub port: u16,
}

/// The four bytes of `key` from `4 * i` on, the first one the highest.
pub open spec fn word(key: Seq<u8>, i: int) -> u32 {
    (key[4 * i] * 0x100_0000 + key[4 * i + 1] * 0x1_0000 + key[4 * i + 2] * 0x100 + key[4 * i
        + 3]) as u32
}

/// One step of the mixing: the word is added in, and the sum is turned by 7 bits.
pub open spec fn stirred(h: u32, w: u32) -> u32 {
    ((h ^ w) << 7) | ((h ^ w) >> 25)
}

/// The first `n` words of `key`, mixed.
pub open spec fn mixed(key: Seq<u8>, n: nat) -> u32
    decreases n,
{
    if n == 0 {
        0
    } else {
        stirred(mixed(key, (n - 1) as nat), word(key, n - 1))
    }
}

/// The address that 32 bits stand for: the low 22 bits are the host part in
/// 100.64.0.0/10, the high 10 bits are added to 1024 for the port.
pub open spec fn placed(h: u32) -> SyntheticAddr {
    SyntheticAddr {
        ip: 0x6440_0000u32 | (h & 0x003F_FFFFu32),
        port: (1024 + (h >> 22)) as u16,
    }
}

/// The address of the peer with this key.
pub open spec fn address_of(key: Seq<u8>) -> SyntheticAddr {
    placed(mixed(key, 8))
}

/// Maps a peer's key to its address.
pub fn synthetic_addr(key: &[u8; 32]) -> (r: SyntheticAddr)
    ensures
        r == address_of(key@),
{
    let mut h: u32 = 0;
    let mut i: usize = 0;
    while i < 8
        invariant
            i <= 8,
            h == mixed(key@, i as nat),
        decreases 8 - i,
    {
        let w: u32 = key[4 * i] as u32 * 0x100_0000 + key[4 * i + 1] as u32 * 0x1_0000 + key[4 * i
            + 2] as u32 * 0x100 + key[4 * i + 3] as u32;
        h = ((h ^ w) << 7) | ((h ^ w) >> 25);
        i = i + 1;
    }
    proof {
        assert(h >> 22 < 1024) by (bit_vector);
    }
    SyntheticAddr { ip: 0x6440_0000u32 | (h & 0x003F_FFFFu32), port: (1024 + (h >> 22)) as u16 }
}

/// Every address is in 100.64.0.0/10: the first octet is 100, and the second is
/// at least 64 and less than 128. No port is a reserved one.
pub proof fn addresses_are_in_cgnat(key: Seq<u8>)
    ensures
        address_of(key).ip >> 24 == 100,
        64 <= (address_of(key).ip >> 16) & 0xff < 128,
        1024 <= address_of(key).port < 2048,
{
    let h = mixed(key, 8);
    assert((0x6440_0000u32 | (h & 0x003F_FFFFu32)) >> 24 == 100) by (bit_vector);
    assert(64 <= ((0x6440_0000u32 | (h & 0x003F_FFFFu32)) >> 16) & 0xff < 128) by (bit_vector);
    assert(h >> 22 < 1024) by (bit_vector);
}

/// Nothing of the 32 bits is lost in the address they are placed at.
proof fn lemma_placed_apart(a: u32, b: u32)
    ensures
        placed(a) == placed(b) ==> a == b,
{
    assert(a >> 22 < 1024) by (bit_vector);
    assert(b >> 22 < 1024) by (bit_vector);
    assert((0x6440_0000u32 | (a & 0x003F_FFFFu32)) == (0x6440_0000u32 | (b & 0x003F_FFFFu32)) && a
        >> 22 == b >> 22 ==> a == b) by (bit_vector);
}

/// Where two keys have the same words from `from` on, what was apart stays apart.
proof fn lemma_stays_apart(a: Seq<u8>, b: Seq<u8>, from: nat, n: nat)
    requires
        from <= n,
        mixed(a, from) != mixed(b, from),
        forall|j: int| from <= j < n ==> word(a, j) == word(b, j),
    ensures
        mixed(a, n) != mixed(b, n),
    decreases n - from,
{
    if from < n {
        lemma_stays_apart(a, b, from, (n - 1) as nat);
        let x = mixed(a, (n - 1) as nat);
        let y = mixed(b, (n - 1) as nat);
        let w = word(a, n - 1);
        assert(word(b, n - 1) == w);
        assert(x != y ==> ((x ^ w) << 7) | ((x ^ w) >> 25) != ((y ^ w) << 7) | ((y ^ w) >> 25))
            by (bit_vector);
    }
}

/// Where two keys have the same words before `n`, they mix alike until there.
proof fn lemma_stays_alike(a: Seq<u8>, b: Seq<u8>, n: nat)
    requires
        forall|j: int| 0 <= j < n ==> word(a, j) == word(b, j),
    ensures
        mixed(a, n) == mixed(b, n),
    decreases n,
{
    if n > 0 {
        lemma_stays_alike(a, b, (n - 1) as nat);
        assert(word(a, n - 1) == word(b, n - 1));
    }
}

/// Two keys that differ in exactly one of their eight words have different
/// addresses.
pub proof fn one_word_apart_means_addresses_apart(a: Seq<u8>, b: Seq<u8>, i: int)
    requires
        0 <= i < 8,
        word(a, i) != word(b, i),
        forall|j: int| 0 <= j < 8 && j != i ==> word(a, j) == word(b, j),
    ensures
        address_of(a) != address_of(b),
{
    lemma_stays_alike(a, b, i as nat);
    let h = mixed(a, i as nat);
    let v = word(a, i);
    let w = word(b, i);
    assert(v != w ==> ((h ^ v) << 7) | ((h ^ v) >> 25) != ((h ^ w) << 7) | ((h ^ w) >> 25))
        by (bit_vector);
    assert(mixed(a, (i + 1) as nat) == stirred(h, v));
    assert(mixed(b, (i + 1) as nat) == stirred(h, w));
    lemma_stays_apart(a, b, (i + 1) as nat, 8);
    lemma_placed_apart(mixed(a, 8), mixed(b, 8));
}

/// A word is its four bytes, the first one the highest.
pub proof fn a_word_is_its_four_bytes(key: Seq<u8>, i: int)
    ensures
        word(key, i) / 0x100_0000 == key[4 * i],
        word(key, i) / 0x1_0000 % 0x100 == key[4 * i + 1],
        word(key, i) / 0x100 % 0x100 == key[4 * i + 2],
        word(key, i) % 0x100 == key[4 * i + 3],
{
    let (a, b, c, d) = (key[4 * i], key[4 * i + 1], key[4 * i + 2], key[4 * i + 3]);
    let w = a * 0x100_0000 + b * 0x1_0000 + c * 0x100 + d;
    assert(w < 0x1_0000_0000);
    assert(word(key, i) == w);
    assert(w / 0x100_0000 == a) by (nonlinear_arith)
        requires
            w == a * 0x100_0000 + b * 0x1_0000 + c * 0x100 + d,
            a < 256,
            b < 256,
            c < 256,
            d < 256,
    ;
    assert(w / 0x1_0000 == a * 0x100 + b) by (nonlinear_arith)
        requires
            w == a * 0x100_0000 + b * 0x1_0000 + c * 0x100 + d,
            a < 256,
            b < 256,
            c < 256,
            d < 256,
    ;
    assert(w / 0x100 == a * 0x1_0000 + b * 0x100 + c) by (nonlinear_arith)
        requires
            w == a * 0x100_0000 + b * 0x1_0000 + c * 0x100 + d,
            a < 256,
            b < 256,
            c < 256,
            d < 256,
    ;
}

/// One step of the mixing can be undone: turned back by 7 bits, it is the word added to
/// what was there.
pub proof fn a_step_of_the_mixing_can_be_undone(h: u32, w: u32)
    ensures
        (stirred(h, w) >> 7) | (stirred(h, w) << 25) == h ^ w,
{
    assert(((((h ^ w) << 7) | ((h ^ w) >> 25)) >> 7) | ((((h ^ w) << 7) | ((h ^ w) >> 25)) << 25)
        == h ^ w) by (bit_vector);
}

/// The address holds all of what was mixed: its host part the low 22 bits, and its port
/// the high 10.
pub proof fn an_address_holds_all_that_was_mixed(h: u32)
    ensures
        placed(h).ip & 0x003F_FFFFu32 == h & 0x003F_FFFFu32,
        placed(h).port - 1024 == h >> 22,
{
    assert((0x6440_0000u32 | (h & 0x003F_FFFFu32)) & 0x003F_FFFFu32 == h & 0x003F_FFFFu32)
        by (bit_vector);
    assert(h >> 22 < 1024) by (bit_vector);
}

/// All eight words of a key go into its address, one after the other.
pub proof fn every_word_is_mixed_in(key: Seq<u8>, n: nat)
    ensures
        mixed(key, 0) == 0,
        mixed(key, (n + 1) as nat) == stirred(mixed(key, n), word(key, n as int)),
        address_of(key) == placed(mixed(key, 8)),
{
}

}
