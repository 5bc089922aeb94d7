//! Unsigned 256-bit integers held as four little-endian 64-bit limbs.
//! The arithmetic itself is done by the 256-bit type that `alloy` exports
//! (`ruint`'s `Uint<256, 4>`), behind the trusted wrappers of this module.
use vstd::prelude::*;
use vstd::arithmetic::div_mod::*;
use alloy::primitives::U256 as Word;

verus! {

/// 2^64
pub open spec fn limb_base() -> nat {
    0x1_0000_0000_0000_0000
}

/// 2^256, the modulus of wrapping arithmetic.
pub open spec fn word_modulus() -> nat {
    limb_base() * limb_base() * limb_base() * limb_base()
}

/// The number that a big-endian byte string stands for.
pub open spec fn be_value(bytes: Seq<u8>) -> nat
    decreases bytes.len(),
{
    if bytes.len() == 0 {
        0
    } else {
        be_value(bytes.drop_last()) * 256 + bytes.last() as nat
    }
}

/// 256^len
pub open spec fn byte_power(len: nat) -> nat
    decreases len,
{
    if len == 0 {
        1
    } else {
        256 * byte_power((len - 1) as nat)
    }
}

/// The `len`-byte big-endian encoding of `n` modulo 256^len.
pub open spec fn be_bytes(n: nat, len: nat) -> Seq<u8>
    decreases len,
{
    if len == 0 {
        Seq::empty()
    } else {
        be_bytes(n / 256, (len - 1) as nat).push((n % 256) as u8)
    }
}

pub proof fn lemma_be_bytes_len(n: nat, len: nat)
    ensures
        be_bytes(n, len).len() == len,
    decreases len,
{
    if len > 0 {
        lemma_be_bytes_len(n / 256, (len - 1) as nat);
    }
}

pub proof fn lemma_byte_power_pos(len: nat)
    ensures
        byte_power(len) > 0,
    decreases len,
{
    if len > 0 {
        lemma_byte_power_pos((len - 1) as nat);
    }
}

/// Reading back a big-endian encoding gives the number modulo 256^len.
pub proof fn lemma_be_value_of_bytes(n: nat, len: nat)
    ensures
        be_value(be_bytes(n, len)) == n % byte_power(len),
    decreases len,
{
    if len == 0 {
        assert(be_bytes(n, len) =~= Seq::<u8>::empty());
    } else {
        let m = byte_power((len - 1) as nat);
        lemma_be_value_of_bytes(n / 256, (len - 1) as nat);
        lemma_byte_power_pos((len - 1) as nat);
        let s = be_bytes(n, len);
        assert(s.drop_last() =~= be_bytes(n / 256, (len - 1) as nat));
        lemma_breakdown(n as int, 256, m as int);
        assert(256 * ((n / 256) % m) + n % 256 == (n / 256 % m) * 256 + n % 256) by (nonlinear_arith);
    }
}

pub proof fn lemma_word_bytes()
    ensures
        byte_power(32) == word_modulus(),
{
    reveal_with_fuel(byte_power, 33);
}

/// The 32-byte encoding of a word reads back to the word.
pub proof fn lemma_be_word_roundtrip(x: U256)
    ensures
        be_value(be_bytes(x.value(), 32)) == x.value(),
        be_bytes(x.value(), 32).len() == 32,
{
    lemma_be_value_of_bytes(x.value(), 32);
    lemma_word_bytes();
    lemma_small_mod(x.value(), word_modulus());
    lemma_be_bytes_len(x.value(), 32);
}

/// A 256-bit unsigned integer; `l0` is the least significant limb.
#[derive(Clone, Copy, Debug, PartialEq, Eq, Hash, Structural)]
pub struct U256 {
    pub l0: u64,
    pub l1: u64,
    pub l2: u64,
    pub l3: u64,
}

/// The word whose value is `n` reduced modulo 2^256.
pub open spec fn u256_of(n: nat) -> U256 {
    U256 {
        l0: (n % limb_base()) as u64,
        l1: ((n / limb_base()) % limb_base()) as u64,
        l2: ((n / limb_base() / limb_base()) % limb_base()) as u64,
        l3: ((n / limb_base() / limb_base() / limb_base()) % limb_base()) as u64,
    }
}

/// An optional word, read as an optional number.
pub open spec fn opt_value(o: Option<U256>) -> Option<nat> {
    match o {
        Some(x) => Some(x.value()),
        None => None,
    }
}

/// `(a - b) mod 2^256`
pub open spec fn wrap_sub(a: nat, b: nat) -> nat {
    ((a - b) % (word_modulus() as int)) as nat
}

impl U256 {
    /// The number this word stands for.
    pub open spec fn value(self) -> nat {
        self.l0 as nat + limb_base() * (self.l1 as nat + limb_base() * (self.l2 as nat
            + limb_base() * self.l3 as nat))
    }

    /// The limbs as a tuple of integers, least significant first.
    pub open spec fn key(self) -> (u64, u64, u64, u64) {
        (self.l0, self.l1, self.l2, self.l3)
    }

    /// Builds a word from its little-endian limbs.
    pub fn from_limbs(limbs: [u64; 4]) -> (r: U256)
        ensures
            r.l0 == limbs[0],
            r.l1 == limbs[1],
            r.l2 == limbs[2],
            r.l3 == limbs[3],
    {
        U256 { l0: limbs[0], l1: limbs[1], l2: limbs[2], l3: limbs[3] }
    }

    /// The little-endian limbs of the word.
    pub fn into_limbs(self) -> (r: [u64; 4])
        ensures
            r[0] == self.l0,
            r[1] == self.l1,
            r[2] == self.l2,
            r[3] == self.l3,
    {
        [self.l0, self.l1, self.l2, self.l3]
    }

    /// The limbs as a tuple of integers, least significant first.
    pub fn to_key(&self) -> (r: (u64, u64, u64, u64))
        ensures
            r == self.key(),
    {
        (self.l0, self.l1, self.l2, self.l3)
    }

    pub fn zero() -> (r: U256)
        ensures
            r.value() == 0,
    {
        U256 { l0: 0, l1: 0, l2: 0, l3: 0 }
    }

    /// 2^256 - 1
    pub fn max_value() -> (r: U256)
        ensures
            r.value() == word_modulus() - 1,
    {
        U256 { l0: 0xffff_ffff_ffff_ffff, l1: 0xffff_ffff_ffff_ffff, l2: 0xffff_ffff_ffff_ffff, l3: 0xffff_ffff_ffff_ffff }
    }

    pub fn from_u64(x: u64) -> (r: U256)
        ensures
            r.value() == x,
    {
        U256 { l0: x, l1: 0, l2: 0, l3: 0 }
    }

    pub fn from_u128(x: u128) -> (r: U256)
        ensures
            r.value() == x,
    {
        let lo: u128 = x % 0x1_0000_0000_0000_0000;
        let hi: u128 = x / 0x1_0000_0000_0000_0000;
        proof {
            lemma_fundamental_div_mod(x as int, limb_base() as int);
            lemma_div_is_ordered(x as int, u128::MAX as int, limb_base() as int);
        }
        U256 { l0: lo as u64, l1: hi as u64, l2: 0, l3: 0 }
    }

    pub fn is_zero(&self) -> (r: bool)
        ensures
            r == (self.value() == 0),
    {
        self.l0 == 0 && self.l1 == 0 && self.l2 == 0 && self.l3 == 0
    }
}

/// Two words with the same value are the same word.
pub proof fn lemma_value_injective(x: U256, y: U256)
    requires
        x.value() == y.value(),
    ensures
        x == y,
{
}

/// Every number below 2^256 is the value of exactly the word `u256_of` gives.
pub proof fn lemma_u256_of_value(x: U256)
    ensures
        u256_of(x.value()) == x,
        u256_of(x.value()).value() == x.value(),
{
    let b = limb_base() as int;
    let r3 = x.l3 as int;
    let r2 = x.l2 + b * r3;
    let r1 = x.l1 + b * r2;
    let v = x.l0 + b * r1;
    assert(v == x.value());
    lemma_fundamental_div_mod_converse(v, b, r1, x.l0 as int);
    lemma_fundamental_div_mod_converse(r1, b, r2, x.l1 as int);
    lemma_fundamental_div_mod_converse(r2, b, r3, x.l2 as int);
    lemma_fundamental_div_mod_converse(r3, b, 0, x.l3 as int);
}

/// `Uint::wrapping_add` (also what `+` does on `Uint`): the sum modulo 2^256.
#[verifier::external_body]
pub(crate) fn add_wrapping(a: U256, b: U256) -> (r: U256)
    ensures
        r.value() == (a.value() + b.value()) % word_modulus(),
{
    let x = Word::from_limbs(a.into_limbs()).wrapping_add(Word::from_limbs(b.into_limbs()));
    U256::from_limbs(x.into_limbs())
}

/// `Uint::wrapping_sub` (also what `-` does on `Uint`): the difference modulo 2^256.
#[verifier::external_body]
pub(crate) fn sub_wrapping(a: U256, b: U256) -> (r: U256)
    ensures
        r.value() == wrap_sub(a.value(), b.value()),
{
    let x = Word::from_limbs(a.into_limbs()).wrapping_sub(Word::from_limbs(b.into_limbs()));
    U256::from_limbs(x.into_limbs())
}

/// `Uint::wrapping_mul` (also what `*` does on `Uint`): the product modulo 2^256.
#[verifier::external_body]
pub(crate) fn mul_wrapping(a: U256, b: U256) -> (r: U256)
    ensures
        r.value() == (a.value() * b.value()) % word_modulus(),
{
    let x = Word::from_limbs(a.into_limbs()).wrapping_mul(Word::from_limbs(b.into_limbs()));
    U256::from_limbs(x.into_limbs())
}

/// `Uint::wrapping_div` (what `/` does on `Uint`): the floor of the quotient.
/// It panics on a zero divisor, which `requires` leaves out.
#[verifier::external_body]
pub(crate) fn div_floor(a: U256, b: U256) -> (r: U256)
    requires
        b.value() != 0,
    ensures
        r.value() == a.value() / b.value(),
{
    let x = Word::from_limbs(a.into_limbs()).wrapping_div(Word::from_limbs(b.into_limbs()));
    U256::from_limbs(x.into_limbs())
}

/// `Uint::checked_add`: the sum, or `None` where it does not fit in 256 bits.
#[verifier::external_body]
pub(crate) fn add_checked(a: U256, b: U256) -> (r: Option<U256>)
    ensures
        opt_value(r) == (if a.value() + b.value() < word_modulus() {
            Some(a.value() + b.value())
        } else {
            None::<nat>
        }),
{
    match Word::from_limbs(a.into_limbs()).checked_add(Word::from_limbs(b.into_limbs())) {
        Some(x) => Some(U256::from_limbs(x.into_limbs())),
        None => None,
    }
}

/// `Uint::checked_sub`: the difference, or `None` where `b > a`.
#[verifier::external_body]
pub(crate) fn sub_checked(a: U256, b: U256) -> (r: Option<U256>)
    ensures
        opt_value(r) == (if b.value() <= a.value() {
            Some((a.value() - b.value()) as nat)
        } else {
            None::<nat>
        }),
{
    match Word::from_limbs(a.into_limbs()).checked_sub(Word::from_limbs(b.into_limbs())) {
        Some(x) => Some(U256::from_limbs(x.into_limbs())),
        None => None,
    }
}

/// `Uint::checked_div`: the floor of the quotient, or `None` on a zero divisor.
#[verifier::external_body]
pub(crate) fn div_checked(a: U256, b: U256) -> (r: Option<U256>)
    ensures
        opt_value(r) == (if b.value() != 0 {
            Some(a.value() / b.value())
        } else {
            None::<nat>
        }),
{
    match Word::from_limbs(a.into_limbs()).checked_div(Word::from_limbs(b.into_limbs())) {
        Some(x) => Some(U256::from_limbs(x.into_limbs())),
        None => None,
    }
}

/// `<` on `Uint`: numeric order.
#[verifier::external_body]
pub(crate) fn lt(a: U256, b: U256) -> (r: bool)
    ensures
        r == (a.value() < b.value()),
{
    Word::from_limbs(a.into_limbs()) < Word::from_limbs(b.into_limbs())
}

/// `<=` on `Uint`: numeric order.
#[verifier::external_body]
pub(crate) fn le(a: U256, b: U256) -> (r: bool)
    ensures
        r == (a.value() <= b.value()),
{
    Word::from_limbs(a.into_limbs()) <= Word::from_limbs(b.into_limbs())
}

/// `Uint::from_be_slice`: reads a big-endian number of at most 32 bytes
/// (longer slices, or values that do not fit, make it panic).
#[verifier::external_body]
pub(crate) fn from_be_slice(bytes: &[u8]) -> (r: U256)
    requires
        bytes@.len() <= 32,
    ensures
        r.value() == be_value(bytes@),
{
    U256::from_limbs(Word::from_be_slice(bytes).into_limbs())
}

/// `Uint::to_be_bytes::<32>`: the 32-byte big-endian encoding.
#[verifier::external_body]
pub(crate) fn to_be_bytes(a: U256) -> (r: [u8; 32])
    ensures
        r@ == be_bytes(a.value(), 32),
{
    Word::from_limbs(a.into_limbs()).to_be_bytes::<32>()
}

/// The larger of two words (`Ord::max` on `Uint`; on a tie both are the same word).
pub fn max(a: U256, b: U256) -> (r: U256)
    ensures
        r.value() == if a.value() >= b.value() { a.value() } else { b.value() },
{
    if lt(a, b) {
        b
    } else {
        a
    }
}

} // verus!
