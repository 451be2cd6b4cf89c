//! The machine words of the chain: 256-bit amounts, hashes, addresses and
//! hardfork numbers, held as plain integers.

use vstd::prelude::*;

verus! {

/// A 160-bit account address: its first 32 bits and its last 128 bits.
///
/// A pair of integers is ordered by its parts, so an address can key a map.
pub type Address = (u32, u128);

/// The position of a transaction in its block.
pub type TxIdx = usize;

/// The largest 256-bit amount.
pub open spec fn u256_max() -> nat {
    0xffff_ffff_ffff_ffff_ffff_ffff_ffff_ffff_ffff_ffff_ffff_ffff_ffff_ffff_ffff_ffffnat
}

/// `n`, or the largest 256-bit amount where `n` is beyond it.
pub open spec fn saturate(n: nat) -> nat {
    if n <= u256_max() {
        n
    } else {
        u256_max()
    }
}

/// `a - b`, or zero where `b` is the larger.
pub open spec fn monus(a: nat, b: nat) -> nat {
    if a >= b {
        (a - b) as nat
    } else {
        0
    }
}

/// A 256-bit amount, as four 64-bit limbs with the least significant first.
#[derive(Clone, Copy, Debug, PartialEq, Eq)]
pub struct U256 {
    pub limbs: [u64; 4],
}

impl View for U256 {
    type V = nat;

    open spec fn view(&self) -> nat {
        (self.limbs@[0] + self.limbs@[1] * 0x1_0000_0000_0000_0000 + self.limbs@[2]
            * 0x1_0000_0000_0000_0000_0000_0000_0000_0000 + self.limbs@[3]
            * 0x1_0000_0000_0000_0000_0000_0000_0000_0000_0000_0000_0000_0000) as nat
    }
}

impl U256 {
    /// Zero.
    pub fn zero() -> (r: U256)
        ensures
            r@ == 0,
    {
        U256 { limbs: [0, 0, 0, 0] }
    }

    /// `Uint::from` of `revm::primitives::U256` on a `u128`: the same number.
    #[verifier::external_body]
    pub(crate) fn from_u128(n: u128) -> (r: U256)
        ensures
            r@ == n,
    {
        U256 { limbs: revm::primitives::U256::from(n).into_limbs() }
    }

    /// `Uint::saturating_add` of `revm::primitives::U256`: the sum, or the
    /// largest amount where the sum is beyond it.
    #[verifier::external_body]
    pub(crate) fn saturating_add(self, other: U256) -> (r: U256)
        ensures
            r@ == saturate(self@ + other@),
    {
        let sum = revm::primitives::U256::from_limbs(self.limbs).saturating_add(
            revm::primitives::U256::from_limbs(other.limbs),
        );
        U256 { limbs: sum.into_limbs() }
    }

    /// `Uint::saturating_sub` of `revm::primitives::U256`: the difference, or
    /// zero where `other` is the larger.
    #[verifier::external_body]
    pub(crate) fn saturating_sub(self, other: U256) -> (r: U256)
        ensures
            r@ == monus(self@, other@),
    {
        let difference = revm::primitives::U256::from_limbs(self.limbs).saturating_sub(
            revm::primitives::U256::from_limbs(other.limbs),
        );
        U256 { limbs: difference.into_limbs() }
    }

    /// `Uint::saturating_mul` of `revm::primitives::U256`: the product, or the
    /// largest amount where the product is beyond it.
    #[verifier::external_body]
    pub(crate) fn saturating_mul(self, other: U256) -> (r: U256)
        ensures
            r@ == saturate(self@ * other@),
    {
        let product = revm::primitives::U256::from_limbs(self.limbs).saturating_mul(
            revm::primitives::U256::from_limbs(other.limbs),
        );
        U256 { limbs: product.into_limbs() }
    }

    /// `<` of `revm::primitives::U256`: the order of the numbers.
    #[verifier::external_body]
    pub(crate) fn less_than(self, other: U256) -> (r: bool)
        ensures
            r == (self@ < other@),
    {
        revm::primitives::U256::from_limbs(self.limbs) < revm::primitives::U256::from_limbs(
            other.limbs,
        )
    }

    /// `Uint::is_zero` of `revm::primitives::U256`: whether the number is zero.
    #[verifier::external_body]
    pub(crate) fn is_zero(self) -> (r: bool)
        ensures
            r == (self@ == 0),
    {
        revm::primitives::U256::from_limbs(self.limbs).is_zero()
    }
}

/// A 256-bit amount is never beyond the largest one.
pub proof fn law_u256_bound(a: U256)
    ensures
        a@ <= u256_max(),
{
}

/// Two 256-bit amounts that stand for the same number have the same limbs.
pub proof fn law_u256_injective(a: U256, b: U256)
    requires
        a@ == b@,
    ensures
        a.limbs@ == b.limbs@,
{
}

/// A 256-bit hash: its first 128 bits and its last 128 bits.
#[derive(Clone, Copy, Debug, PartialEq, Eq, Structural)]
pub struct B256 {
    pub hi: u128,
    pub lo: u128,
}

/// The Keccak-256 hash of no bytes, which stands for "no code".
pub open spec fn keccak_empty_hash() -> B256 {
    B256 { hi: 0xc5d2_4601_86f7_233c_927e_7db2_dcc7_03c0, lo: 0xe500_b653_ca82_273b_7bfa_d804_5d85_a470 }
}

/// The constant `revm::primitives::KECCAK_EMPTY`, read as two big-endian halves.
#[verifier::external_body]
pub(crate) fn keccak_empty() -> (r: B256)
    ensures
        r == keccak_empty_hash(),
{
    let bytes = revm::primitives::KECCAK_EMPTY.0;
    B256 {
        hi: u128::from_be_bytes(bytes[..16].try_into().unwrap()),
        lo: u128::from_be_bytes(bytes[16..].try_into().unwrap()),
    }
}

/// The number of the Spurious Dragon hardfork, from which on an empty account is
/// left out of the state.
pub const SPURIOUS_DRAGON: u8 = 5;

/// The number of the newest hardfork.
pub const NEWEST_SPEC: u8 = 19;

/// A hardfork, by its number in order of activation.
#[derive(Clone, Copy, Debug, PartialEq, Eq)]
pub struct SpecId {
    number: u8,
}

impl SpecId {
    #[verifier::type_invariant]
    spec fn known(self) -> bool {
        self.number <= NEWEST_SPEC
    }

    /// The hardfork's number.
    pub closed spec fn number(self) -> u8 {
        self.number
    }

    /// The hardfork with this number, if there is one.
    pub fn new(number: u8) -> (r: Option<SpecId>)
        ensures
            r is Some <==> number <= NEWEST_SPEC,
            r matches Some(spec) ==> spec.number() == number,
    {
        if number <= NEWEST_SPEC {
            Some(SpecId { number })
        } else {
            None
        }
    }

    /// Whether the rules of Spurious Dragon hold in this hardfork.
    pub fn is_spurious_dragon(self) -> (r: bool)
        ensures
            r == (self.number() >= SPURIOUS_DRAGON),
    {
        proof {
            use_type_invariant(&self);
        }
        is_enabled_in(self.number, SPURIOUS_DRAGON)
    }
}

/// `SpecId::is_enabled_in` of `revm::primitives::hardfork`: a hardfork's rules
/// hold in itself and in every later one. The numbers are those that
/// `SpecId::try_from_u8` knows.
#[verifier::external_body]
fn is_enabled_in(spec: u8, other: u8) -> (r: bool)
    requires
        spec <= NEWEST_SPEC,
        other <= NEWEST_SPEC,
    ensures
        r == (spec >= other),
{
    let spec = revm::primitives::hardfork::SpecId::try_from_u8(spec).unwrap();
    let other = revm::primitives::hardfork::SpecId::try_from_u8(other).unwrap();
    spec.is_enabled_in(other)
}

} // verus!
