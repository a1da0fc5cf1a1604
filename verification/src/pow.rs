//! Proof-of-work targets. A header commits to its target in the 32-bit
//! compact ("bits") encoding; this module decodes that encoding, bounds
//! difficulty transitions, and accumulates chain work for reorganization
//! decisions.
use vstd::arithmetic::div_mod::{
    lemma_fundamental_div_mod, lemma_mod_multiples_basic, lemma_small_mod,
};
use vstd::arithmetic::mul::{
    lemma_mul_inequality, lemma_mul_is_associative, lemma_mul_is_commutative,
    lemma_mul_is_distributive_add_other_way,
};
use vstd::arithmetic::power2::{
    lemma2_to64, lemma2_to64_rest, lemma_pow2_adds, lemma_pow2_pos, lemma_pow2_strictly_increases,
    pow2,
};
use vstd::bits::{
    lemma_u32_shr_is_div, lemma_u64_low_bits_mask_is_mod, lemma_u64_shl_is_mul,
    lemma_u64_shr_is_div, low_bits_mask,
};
use vstd::prelude::*;

use crate::types::{u256_val, U256};

verus! {

/// The network a chain belongs to.
#[derive(Clone, Copy, Debug, PartialEq, Eq, Structural)]
pub enum Network {
    Bitcoin,
    Testnet,
    Testnet4,
    Signet,
    Regtest,
}

/// The consensus parameters the difficulty rules depend on.
#[derive(Clone, Copy, Debug)]
pub struct Params {
    /// Whether the network lets a block drop to the minimum difficulty.
    pub allow_min_difficulty_blocks: bool,
    /// The highest target the network can attain.
    pub max_attainable_target: U256,
}

/// The parameters of each network.
pub open spec fn params_of(network: Network) -> Params {
    match network {
        Network::Bitcoin => Params {
            allow_min_difficulty_blocks: false,
            max_attainable_target: U256 { w0: 0, w1: 0, w2: 0, w3: 0xFFFF0000 },
        },
        Network::Testnet => Params {
            allow_min_difficulty_blocks: true,
            max_attainable_target: U256 { w0: 0, w1: 0, w2: 0, w3: 0xFFFF0000 },
        },
        Network::Testnet4 => Params {
            allow_min_difficulty_blocks: true,
            max_attainable_target: U256 { w0: 0, w1: 0, w2: 0, w3: 0xFFFF0000 },
        },
        Network::Signet => Params {
            allow_min_difficulty_blocks: false,
            max_attainable_target: U256 { w0: 0, w1: 0, w2: 0, w3: 0x00000377AE000000 },
        },
        Network::Regtest => Params {
            allow_min_difficulty_blocks: true,
            max_attainable_target: U256 { w0: 0, w1: 0, w2: 0, w3: 0x7FFFFF0000000000 },
        },
    }
}

impl Params {
    /// The parameters of `network`.
    pub fn new(network: Network) -> (r: Params)
        ensures
            r == params_of(network),
    {
        match network {
            Network::Bitcoin => Params {
                allow_min_difficulty_blocks: false,
                max_attainable_target: U256 { w0: 0, w1: 0, w2: 0, w3: 0xFFFF0000 },
            },
            Network::Testnet => Params {
                allow_min_difficulty_blocks: true,
                max_attainable_target: U256 { w0: 0, w1: 0, w2: 0, w3: 0xFFFF0000 },
            },
            Network::Testnet4 => Params {
                allow_min_difficulty_blocks: true,
                max_attainable_target: U256 { w0: 0, w1: 0, w2: 0, w3: 0xFFFF0000 },
            },
            Network::Signet => Params {
                allow_min_difficulty_blocks: false,
                max_attainable_target: U256 { w0: 0, w1: 0, w2: 0, w3: 0x00000377AE000000 },
            },
            Network::Regtest => Params {
                allow_min_difficulty_blocks: true,
                max_attainable_target: U256 { w0: 0, w1: 0, w2: 0, w3: 0x7FFFFF0000000000 },
            },
        }
    }
}

/// The target encoded by compact `bits`: a 24-bit mantissa scaled by a
/// byte exponent, zero when the sign bit of the mantissa is set, reduced
/// modulo 2^256 with the shift count masked to a byte, exactly as
/// consensus code decodes it.
pub open spec fn target_of_bits(bits: u32) -> nat {
    let e = (bits >> 24) as nat;
    let m = (bits & 0xFFFFFF) as nat;
    if e <= 3 {
        let mant = m / pow2((8 * (3 - e)) as nat);
        if mant > 0x7FFFFF {
            0
        } else {
            mant
        }
    } else {
        if m > 0x7FFFFF {
            0
        } else {
            (m * pow2(((8 * (e - 3)) % 256) as nat)) % pow2(256)
        }
    }
}

/// Builds the 256-bit value `m * 2^shift mod 2^256` from a mantissa of at
/// most 23 bits.
fn place_mantissa(m: u32, shift: u32) -> (t: U256)
    requires
        m <= 0x7FFFFF,
        shift <= 257,
    ensures
        u256_val(t) == (m as nat * pow2(shift as nat)) % pow2(256),
{
    proof {
        lemma2_to64();
        lemma2_to64_rest();
        lemma_pow2_pos(256);
    }
    if shift >= 256 {
        proof {
            lemma_pow2_adds((shift - 256) as nat, 256);
            lemma_mul_is_associative(m as int, pow2((shift - 256) as nat) as int, pow2(256) as int);
            lemma_mod_multiples_basic((m * pow2((shift - 256) as nat)) as int, pow2(256) as int);
        }
        U256::zero()
    } else {
        let word: u32 = shift / 64;
        let bit: u32 = shift % 64;
        let ghost pbit = pow2(bit as nat);
        let m64: u64 = m as u64;
        let (lo, hi): (u64, u64) = if bit == 0 {
            (m64, 0u64)
        } else if bit <= 40 {
            proof {
                lemma_pow2_strictly_increases(bit as nat, 41);
                lemma_mul_inequality(pbit as int, pow2(41) as int, m as int);
                lemma_mul_is_commutative(m as int, pbit as int);
                lemma_mul_is_commutative(pow2(41) as int, m as int);
                lemma_u64_shl_is_mul(m64, bit as u64);
            }
            (m64 << bit, 0u64)
        } else {
            let k: u32 = 64 - bit;
            proof {
                lemma_pow2_strictly_increases(k as nat, 24);
                lemma_u64_shl_is_mul(1u64, k as u64);
                lemma_u64_low_bits_mask_is_mod(m64, k as nat);
                lemma_u64_shr_is_div(m64, k as u64);
            }
            let mask: u64 = (1u64 << k) - 1;
            let mlo: u64 = m64 & mask;
            let mhi: u64 = m64 >> k;
            proof {
                // mlo * 2^bit stays below 2^64
                lemma_pow2_adds(k as nat, bit as nat);
                assert(mlo < pow2(k as nat));
                lemma_mul_inequality(mlo as int + 1, pow2(k as nat) as int, pbit as int);
                lemma_mul_is_commutative(mlo as int + 1, pbit as int);
                lemma_mul_is_distributive_add_other_way(pbit as int, mlo as int, 1);
                lemma_u64_shl_is_mul(mlo, bit as u64);
                // m64 == mhi * 2^k + mlo, so mlo * 2^bit + mhi * 2^64 == m * 2^bit
                lemma_fundamental_div_mod(m64 as int, pow2(k as nat) as int);
                lemma_mul_is_commutative(pow2(k as nat) as int, mhi as int);
                assert(mhi * pow2(k as nat) + mlo == m64);
                assert((mlo * pbit + mhi * pow2(64)) == (mhi * pow2(k as nat) + mlo) * pbit)
                    by (nonlinear_arith)
                    requires
                        pow2(64) == pow2(k as nat) * pbit,
                ;
            }
            (mlo << bit, mhi)
        };
        proof {
            lemma_pow2_pos(bit as nat);
            assert(lo + hi * pow2(64) == m * pbit);
            assert(m * pbit < pow2(24) * pbit) by (nonlinear_arith)
                requires
                    m < pow2(24),
                    pbit > 0,
            ;
            lemma_pow2_adds(24, bit as nat);
            lemma_pow2_strictly_increases((24 + bit) as nat, 88);
        }
        let t: U256 = if word == 0 {
            U256 { w0: lo, w1: hi, w2: 0, w3: 0 }
        } else if word == 1 {
            U256 { w0: 0, w1: lo, w2: hi, w3: 0 }
        } else if word == 2 {
            U256 { w0: 0, w1: 0, w2: lo, w3: hi }
        } else {
            U256 { w0: 0, w1: 0, w2: 0, w3: lo }
        };
        proof {
            lemma_place_value(word as nat, bit as nat, lo as nat, hi as nat, m as nat);
            lemma_pow2_adds(64, 64);
            lemma_pow2_adds(128, 64);
            assert(pow2(128) == 0x1_0000_0000_0000_0000_0000_0000_0000_0000);
            assert(pow2(192) == 0x1_0000_0000_0000_0000_0000_0000_0000_0000_0000_0000_0000_0000);
            assert(u256_val(t) == (m as nat * pow2(shift as nat)) % pow2(256));
        }
        t
    }
}

/// The value of limbs `lo`, `hi` placed at limb index `word` equals
/// `m * 2^(64*word + bit) mod 2^256` whenever `lo + hi*2^64 == m * 2^bit`
/// and the product is small enough.
proof fn lemma_place_value(word: nat, bit: nat, lo: nat, hi: nat, m: nat)
    requires
        word <= 3,
        bit < 64,
        lo < pow2(64),
        hi < pow2(64),
        lo + hi * pow2(64) == m * pow2(bit),
        m * pow2(bit) < pow2(88),
    ensures
        word < 3 ==> lo * pow2(64 * word) + hi * pow2(64 * (word + 1)) == (m * pow2(
            64 * word + bit,
        )) % pow2(256),
        word == 3 ==> lo * pow2(192) == (m * pow2(192 + bit)) % pow2(256),
{
    lemma_pow2_pos(256);
    lemma_pow2_pos(64 * word);
    lemma_pow2_adds(64 * word, bit);
    if word < 3 {
        lemma_pow2_adds(64, 64 * word);
        assert(lo * pow2(64 * word) + hi * pow2(64 * (word + 1)) == (lo + hi * pow2(64)) * pow2(
            64 * word,
        )) by (nonlinear_arith)
            requires
                pow2(64 * (word + 1)) == pow2(64) * pow2(64 * word),
        ;
        assert((lo + hi * pow2(64)) * pow2(64 * word) == m * pow2(64 * word + bit))
            by (nonlinear_arith)
            requires
                lo + hi * pow2(64) == m * pow2(bit),
                pow2(64 * word + bit) == pow2(64 * word) * pow2(bit),
        ;
        // the value is below 2^88 * 2^128 <= 2^216 < 2^256
        assert(m * pow2(64 * word + bit) < pow2(88) * pow2(64 * word)) by (nonlinear_arith)
            requires
                m * pow2(bit) < pow2(88),
                pow2(64 * word) > 0,
                pow2(64 * word + bit) == pow2(64 * word) * pow2(bit),
        ;
        lemma_pow2_adds(88, 64 * word);
        lemma_pow2_strictly_increases(88 + 64 * word, 256);
        lemma_small_mod(m * pow2(64 * word + bit), pow2(256));
        lemma_small_mod((lo * pow2(64 * word) + hi * pow2(64 * (word + 1))) as nat, pow2(256));
    } else {
        // m * 2^(192+bit) == lo * 2^192 + hi * 2^256
        lemma_pow2_adds(64, 192);
        assert(m * pow2(192 + bit) == lo * pow2(192) + hi * pow2(256)) by (nonlinear_arith)
            requires
                lo + hi * pow2(64) == m * pow2(bit),
                pow2(192 + bit) == pow2(192) * pow2(bit),
                pow2(256) == pow2(64) * pow2(192),
        ;
        lemma_mod_multiples_vanish_nat(lo * pow2(192), hi, pow2(256));
        assert(lo * pow2(192) < pow2(64) * pow2(192)) by (nonlinear_arith)
            requires
                lo < pow2(64),
                pow2(192) > 0,
        ;
        lemma_pow2_pos(192);
        lemma_small_mod(lo * pow2(192), pow2(256));
    }
}

/// Adding a multiple of the modulus does not change a remainder.
proof fn lemma_mod_multiples_vanish_nat(x: nat, k: nat, m: nat)
    requires
        m > 0,
    ensures
        (x + k * m) % m == x % m,
    decreases k,
{
    if k > 0 {
        lemma_mod_multiples_vanish_nat(x, (k - 1) as nat, m);
        assert(x + k * m == (x + (k - 1) * m) + m) by (nonlinear_arith);
        vstd::arithmetic::div_mod::lemma_mod_add_multiples_vanish((x + (k - 1) * m) as int, m as int);
    }
}

/// Decodes a compact target into its 256-bit value.
pub fn target_from_bits(bits: u32) -> (t: U256)
    ensures
        u256_val(t) == target_of_bits(bits),
{
    let e: u32 = bits >> 24;
    let m: u32 = bits & 0xFFFFFF;
    proof {
        assert(bits & 0xFFFFFF <= 0xFFFFFF) by (bit_vector);
        assert(bits >> 24 <= 0xFF) by (bit_vector);
        lemma2_to64();
        lemma_pow2_pos(256);
    }
    if e <= 3 {
        let shift: u32 = 8 * (3 - e);
        let mant: u32 = m >> shift;
        proof {
            lemma_u32_shr_is_div(m, shift);
        }
        if mant > 0x7FFFFF {
            U256::zero()
        } else {
            let t = place_mantissa(mant, 0);
            proof {
                lemma_pow2_strictly_increases(23, 256);
                lemma_small_mod(mant as nat, pow2(256));
            }
            t
        }
    } else {
        if m > 0x7FFFFF {
            U256::zero()
        } else {
            let sraw: u32 = 8 * (e - 3);
            let shift: u32 = sraw & 0xFF;
            proof {
                assert(sraw & 0xFF == sraw % 256) by (bit_vector);
            }
            place_mantissa(m, shift)
        }
    }
}

/// The largest target a difficulty adjustment may reach from `bits`:
/// four times the previous target, truncated to 256 bits, capped by the
/// network's maximum attainable target.
pub open spec fn max_transition_of(bits: u32, params: Params) -> nat {
    let quadrupled = (4 * target_of_bits(bits)) % pow2(256);
    let cap = u256_val(params.max_attainable_target);
    if quadrupled <= cap {
        quadrupled
    } else {
        cap
    }
}

/// Computes the transition cap as a 256-bit value.
pub fn max_transition_from_bits(bits: u32, params: &Params) -> (t: U256)
    ensures
        u256_val(t) == max_transition_of(bits, *params),
{
    let e: u32 = bits >> 24;
    let m: u32 = bits & 0xFFFFFF;
    proof {
        assert(bits & 0xFFFFFF <= 0xFFFFFF) by (bit_vector);
        assert(bits >> 24 <= 0xFF) by (bit_vector);
        lemma2_to64();
        lemma_pow2_pos(256);
    }
    let quadrupled: U256 = if e <= 3 {
        let shift: u32 = 8 * (3 - e);
        let mant: u32 = m >> shift;
        proof {
            lemma_u32_shr_is_div(m, shift);
        }
        if mant > 0x7FFFFF {
            proof {
                lemma_small_mod(0, pow2(256));
            }
            U256::zero()
        } else {
            let t = place_mantissa(mant, 2);
            proof {
                lemma_quadruple_is_shift(mant as nat, 0);
                lemma_pow2_strictly_increases(23, 256);
                lemma_small_mod(mant as nat, pow2(256));
            }
            t
        }
    } else {
        if m > 0x7FFFFF {
            proof {
                lemma_small_mod(0, pow2(256));
            }
            U256::zero()
        } else {
            let sraw: u32 = 8 * (e - 3);
            let shift: u32 = sraw & 0xFF;
            proof {
                assert(sraw & 0xFF == sraw % 256) by (bit_vector);
            }
            let t = place_mantissa(m, shift + 2);
            proof {
                lemma_quadruple_is_shift(m as nat, shift as nat);
            }
            t
        }
    };
    proof {
        crate::types::lemma_u256_order(quadrupled, params.max_attainable_target);
    }
    if quadrupled.le(&params.max_attainable_target) {
        quadrupled
    } else {
        params.max_attainable_target
    }
}

/// The work a block contributes: the expected number of hashes to meet
/// its target, `2^256 / (target + 1)`, with the degenerate targets pinned
/// the way consensus code pins them (zero and one invert to the maximum,
/// the maximum inverts to one).
pub open spec fn work_of_target(t: nat) -> nat {
    if t <= 1 {
        (pow2(256) - 1) as nat
    } else if t == (pow2(256) - 1) as nat {
        1
    } else {
        pow2(256) / (t + 1)
    }
}

/// The work of a block whose compact target is `bits`.
pub open spec fn work_of_bits(bits: u32) -> nat {
    work_of_target(target_of_bits(bits))
}

/// Every block's work fits in 256 bits.
pub proof fn lemma_work_bound(bits: u32)
    ensures
        work_of_bits(bits) < pow2(256),
{
    lemma_pow2_pos(256);
    let t = target_of_bits(bits);
    if t > 1 && t != (pow2(256) - 1) as nat {
        vstd::arithmetic::div_mod::lemma_div_decreases(pow2(256) as int, (t + 1) as int);
    }
}

/// Relies on `bitcoin::pow::Target::to_work`: the 256-bit multiplicative
/// inverse of the decoded target, little-endian, as `U256::inverse`
/// computes it (`2^256 / (target + 1)` away from the degenerate targets).
#[verifier::external_body]
pub fn work_from_bits(bits: u32) -> (w: U256)
    ensures
        u256_val(w) == work_of_bits(bits),
{
    let target = bitcoin::Target::from_compact(bitcoin::CompactTarget::from_consensus(bits));
    let b = target.to_work().to_le_bytes();
    U256 {
        w0: u64::from_le_bytes(b[0..8].try_into().unwrap()),
        w1: u64::from_le_bytes(b[8..16].try_into().unwrap()),
        w2: u64::from_le_bytes(b[16..24].try_into().unwrap()),
        w3: u64::from_le_bytes(b[24..32].try_into().unwrap()),
    }
}

/// A 320-bit accumulator for summed work, wide enough that summing one
/// 256-bit work per block can never overflow.
#[derive(Clone, Copy, Debug, PartialEq, Eq, Structural)]
pub struct WorkSum {
    pub v0: u64,
    pub v1: u64,
    pub v2: u64,
    pub v3: u64,
    pub v4: u64,
}

/// The numeric value of a [`WorkSum`].
pub open spec fn worksum_val(a: WorkSum) -> nat {
    (a.v0 + a.v1 * 0x1_0000_0000_0000_0000
        + a.v2 * 0x1_0000_0000_0000_0000_0000_0000_0000_0000
        + a.v3 * 0x1_0000_0000_0000_0000_0000_0000_0000_0000_0000_0000_0000_0000
        + a.v4
        * 0x1_0000_0000_0000_0000_0000_0000_0000_0000_0000_0000_0000_0000_0000_0000_0000_0000) as nat
}

/// The concrete values of the powers of two the work accumulator needs.
pub proof fn lemma_pow2_big()
    ensures
        pow2(256)
            == 0x1_0000_0000_0000_0000_0000_0000_0000_0000_0000_0000_0000_0000_0000_0000_0000_0000,
        pow2(320)
            == 0x1_0000_0000_0000_0000_0000_0000_0000_0000_0000_0000_0000_0000_0000_0000_0000_0000_0000_0000_0000_0000,
{
    vstd::arithmetic::power2::lemma2_to64();
    lemma_pow2_adds(64, 64);
    lemma_pow2_adds(128, 128);
    lemma_pow2_adds(64, 256);
    assert(pow2(128) == 0x1_0000_0000_0000_0000 * 0x1_0000_0000_0000_0000);
    assert(pow2(256) == 0x1_0000_0000_0000_0000_0000_0000_0000_0000
        * 0x1_0000_0000_0000_0000_0000_0000_0000_0000);
    assert(pow2(320) == 0x1_0000_0000_0000_0000
        * 0x1_0000_0000_0000_0000_0000_0000_0000_0000_0000_0000_0000_0000_0000_0000_0000_0000);
}

/// One 64-bit addition with carry in and carry out.
fn add_with_carry(a: u64, b: u64, cin: u64) -> (r: (u64, u64))
    requires
        cin <= 1,
    ensures
        r.0 + r.1 * 0x1_0000_0000_0000_0000 == a + b + cin,
        r.1 <= 1,
{
    let (s1, c1): (u64, u64) = if a <= u64::MAX - b {
        (a + b, 0)
    } else {
        ((a - (u64::MAX - b)) - 1, 1)
    };
    if s1 <= u64::MAX - cin {
        (s1 + cin, c1)
    } else {
        (0, c1 + 1)
    }
}

impl WorkSum {
    /// The zero sum.
    pub fn zero() -> (r: WorkSum)
        ensures
            worksum_val(r) == 0,
    {
        WorkSum { v0: 0, v1: 0, v2: 0, v3: 0, v4: 0 }
    }

    /// Adds one block's work to the sum.
    pub fn plus(&self, w: &U256) -> (r: WorkSum)
        requires
            worksum_val(*self) + u256_val(*w) < pow2(320),
        ensures
            worksum_val(r) == worksum_val(*self) + u256_val(*w),
    {
        proof {
            lemma_pow2_big();
        }
        let (s0, c0) = add_with_carry(self.v0, w.w0, 0);
        let (s1, c1) = add_with_carry(self.v1, w.w1, c0);
        let (s2, c2) = add_with_carry(self.v2, w.w2, c1);
        let (s3, c3) = add_with_carry(self.v3, w.w3, c2);
        let s4 = self.v4 + c3;
        WorkSum { v0: s0, v1: s1, v2: s2, v3: s3, v4: s4 }
    }

    /// Whether `self > other` as integers.
    pub fn gt(&self, other: &WorkSum) -> (r: bool)
        ensures
            r == (worksum_val(*self) > worksum_val(*other)),
    {
        if self.v4 != other.v4 {
            self.v4 > other.v4
        } else if self.v3 != other.v3 {
            self.v3 > other.v3
        } else if self.v2 != other.v2 {
            self.v2 > other.v2
        } else if self.v1 != other.v1 {
            self.v1 > other.v1
        } else {
            self.v0 > other.v0
        }
    }
}

/// Quadrupling a truncated scaled mantissa is scaling by two more bits.
proof fn lemma_quadruple_is_shift(m: nat, shift: nat)
    ensures
        (4 * ((m * pow2(shift)) % pow2(256))) % pow2(256) == (m * pow2(shift + 2)) % pow2(256),
{
    lemma_pow2_pos(256);
    lemma2_to64();
    lemma_pow2_adds(shift, 2);
    vstd::arithmetic::div_mod::lemma_mul_mod_noop_right(4, (m * pow2(shift)) as int, pow2(256) as int);
    assert(4 * (m * pow2(shift)) == m * pow2(shift + 2)) by (nonlinear_arith)
        requires
            pow2(shift + 2) == pow2(shift) * pow2(2),
            pow2(2) == 4,
    ;
}

} // verus!
