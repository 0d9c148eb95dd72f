//! Elements of the scalar field of BLS12-377, the field in which records are
//! encrypted and state roots are computed.
use vstd::prelude::*;
use crate::bytes::{u128_le_bytes, write_u128};

verus! {

/// 2^128, the weight of the high limb.
pub open spec fn limb_base() -> int {
    0x1_0000_0000_0000_0000_0000_0000_0000_0000int
}

/// The low 128 bits of the modulus.
pub const MODULUS_LO: u128 = 0x59aa76fed00000010a11800000000001u128;

/// The high 128 bits of the modulus.
pub const MODULUS_HI: u128 = 0x12ab655e9a2ca55660b44d1e5c37b001u128;

/// The field modulus p (a 253-bit prime).
pub open spec fn modulus() -> int {
    MODULUS_LO + MODULUS_HI * limb_base()
}

/// The integer denoted by two 128-bit limbs, low limb first.
pub open spec fn limbs_value(lo: u128, hi: u128) -> int {
    lo + hi * limb_base()
}

/// A field element in canonical form: an integer in `[0, p)`, kept as two
/// 128-bit limbs.
#[derive(Clone, Copy, Debug, PartialEq, Eq, Structural)]
pub struct Field {
    lo: u128,
    hi: u128,
}

impl View for Field {
    type V = int;

    closed spec fn view(&self) -> int {
        limbs_value(self.lo, self.hi)
    }
}

/// Subtraction in the field, on integers.
pub open spec fn field_sub(a: int, b: int) -> int {
    (a - b) % modulus()
}

/// Bit `i` of `x`, least significant first.
pub open spec fn u128_bit(x: u128, i: int) -> bool {
    (x >> (i as u128)) & 1 == 1
}

/// The 253 bits of a field element, least significant first.
pub open spec fn field_bits(f: Field) -> Seq<bool> {
    Seq::new(
        253,
        |i: int|
            if i < 128 {
                u128_bit(f.spec_lo(), i)
            } else {
                u128_bit(f.spec_hi(), i - 128)
            },
    )
}

/// The 32 little-endian bytes of a field element: its low limb, then its high limb.
pub open spec fn field_bytes(f: Field) -> Seq<u8> {
    u128_le_bytes(f.spec_lo()) + u128_le_bytes(f.spec_hi())
}

/// Addition in the field, on integers.
pub open spec fn field_add(a: int, b: int) -> int {
    (a + b) % modulus()
}

/// Subtracting `b` undoes adding `b`.
pub proof fn lemma_sub_undoes_add(a: int, b: int)
    requires
        0 <= a < modulus(),
    ensures
        field_sub(field_add(a, b), b) == a,
{
    let m = modulus();
    vstd::arithmetic::div_mod::lemma_fundamental_div_mod(a + b, m);
    let q = (a + b) / m;
    assert(field_add(a, b) - b == a - q * m);
    vstd::arithmetic::div_mod::lemma_mod_multiples_vanish(-q, a, m);
    assert(a - q * m == -q * m + a) by (nonlinear_arith);
    lemma_mod_small(a);
}

/// `a >= b` as integers, decided on the limbs.
fn limbs_ge(a_lo: u128, a_hi: u128, b_lo: u128, b_hi: u128) -> (r: bool)
    ensures
        r == (limbs_value(a_lo, a_hi) >= limbs_value(b_lo, b_hi)),
{
    a_hi > b_hi || (a_hi == b_hi && a_lo >= b_lo)
}

/// `a - b` on limbs, where `a >= b`.
fn limbs_sub(a_lo: u128, a_hi: u128, b_lo: u128, b_hi: u128) -> (r: (u128, u128))
    requires
        limbs_value(a_lo, a_hi) >= limbs_value(b_lo, b_hi),
    ensures
        limbs_value(r.0, r.1) == limbs_value(a_lo, a_hi) - limbs_value(b_lo, b_hi),
{
    let lo = a_lo.wrapping_sub(b_lo);
    if a_lo < b_lo {
        (lo, a_hi - b_hi - 1)
    } else {
        (lo, a_hi - b_hi)
    }
}

impl Field {
    #[verifier::type_invariant]
    spec fn canonical(self) -> bool {
        limbs_value(self.lo, self.hi) < modulus()
    }

    /// The low limb.
    pub closed spec fn spec_lo(self) -> u128 {
        self.lo
    }

    /// The high limb.
    pub closed spec fn spec_hi(self) -> u128 {
        self.hi
    }

    /// The element with the given limbs.
    pub closed spec fn spec_from_limbs(lo: u128, hi: u128) -> Field {
        Field { lo, hi }
    }

    /// The element with the given limbs has them as its limbs.
    pub proof fn lemma_from_limbs(lo: u128, hi: u128)
        ensures
            Field::spec_from_limbs(lo, hi).spec_lo() == lo,
            Field::spec_from_limbs(lo, hi).spec_hi() == hi,
            Field::spec_from_limbs(lo, hi)@ == limbs_value(lo, hi),
    {
    }

    /// An element is determined by its limbs.
    pub proof fn lemma_limbs_determine(f: Field)
        ensures
            Field::spec_from_limbs(f.spec_lo(), f.spec_hi()) == f,
    {
    }

    /// An element is determined by its value.
    pub proof fn lemma_view_injective(a: Field, b: Field)
        ensures
            a@ == b@ ==> a == b,
    {
        if a@ == b@ {
            assert(a.lo == b.lo && a.hi == b.hi);
        }
    }

    /// The value is the integer that the two limbs denote.
    pub broadcast proof fn lemma_view_is_limbs(f: Field)
        ensures
            #[trigger] f@ == limbs_value(f.spec_lo(), f.spec_hi()),
    {
    }

    /// Every element lies in `[0, p)`: a caller learns it of an element by this
    /// call.
    pub fn below_modulus(&self)
        ensures
            0 <= self@ < modulus(),
    {
        proof {
            use_type_invariant(self);
        }
    }

    /// Every element of `v` lies in `[0, p)`: a caller learns it of a sequence of
    /// elements by this call.
    pub fn all_below_modulus(v: &[Field])
        ensures
            forall|k: int| 0 <= k < v@.len() ==> 0 <= #[trigger] v@[k]@ < modulus(),
    {
        for i in 0..v.len()
            invariant
                forall|k: int| 0 <= k < i ==> 0 <= #[trigger] v@[k]@ < modulus(),
        {
            v[i].below_modulus();
        }
    }

    /// The zero element.
    pub fn zero() -> (r: Field)
        ensures
            r@ == 0,
    {
        Field { lo: 0, hi: 0 }
    }

    /// The element whose value is `x` (every `u128` is below the modulus).
    pub fn from_u128(x: u128) -> (r: Field)
        ensures
            r@ == x,
    {
        Field { lo: x, hi: 0 }
    }

    /// The element with the given limbs, or `None` where they denote `p` or more.
    pub fn from_limbs(lo: u128, hi: u128) -> (r: Option<Field>)
        ensures
            r is Some <==> limbs_value(lo, hi) < modulus(),
            r matches Some(f) ==> f == Field::spec_from_limbs(lo, hi) && f@ == limbs_value(lo, hi)
                && f.spec_lo() == lo && f.spec_hi() == hi,
    {
        if limbs_ge(lo, hi, MODULUS_LO, MODULUS_HI) {
            None
        } else {
            Some(Field { lo, hi })
        }
    }

    /// The low limb.
    pub fn lo(&self) -> (r: u128)
        ensures
            r == self.spec_lo(),
    {
        self.lo
    }

    /// The high limb.
    pub fn hi(&self) -> (r: u128)
        ensures
            r == self.spec_hi(),
    {
        self.hi
    }

    /// Appends the 253 bits of the element to `bits`, least significant first.
    pub fn write_bits_le(&self, bits: &mut Vec<bool>)
        ensures
            final(bits)@ == old(bits)@ + field_bits(*self),
    {
        let ghost start = bits@;
        for i in 0..253u32
            invariant
                bits@ == start + field_bits(*self).take(i as int),
        {
            let b = if i < 128 {
                (self.lo >> (i as u128)) & 1 == 1
            } else {
                (self.hi >> ((i - 128) as u128)) & 1 == 1
            };
            bits.push(b);
            assert(field_bits(*self).take(i + 1) =~= field_bits(*self).take(i as int).push(b));
        }
        assert(field_bits(*self).take(253) =~= field_bits(*self));
    }

    /// Appends the 32 little-endian bytes of the element to `out`.
    pub fn write_bytes_le(&self, out: &mut Vec<u8>)
        ensures
            final(out)@ == old(out)@ + field_bytes(*self),
    {
        let ghost start = out@;
        write_u128(self.lo, out);
        write_u128(self.hi, out);
        assert(out@ =~= start + field_bytes(*self));
    }

    /// The 253 bits of the element, least significant first.
    pub fn to_bits_le(&self) -> (r: Vec<bool>)
        ensures
            r@ == field_bits(*self),
    {
        let mut r: Vec<bool> = Vec::new();
        self.write_bits_le(&mut r);
        assert(r@ =~= field_bits(*self));
        r
    }

    /// `self - other` in the field.
    pub fn sub(&self, other: &Field) -> (r: Field)
        ensures
            r@ == field_sub(self@, other@),
            0 <= r@ < modulus(),
    {
        proof {
            use_type_invariant(self);
            use_type_invariant(other);
        }
        if limbs_ge(self.lo, self.hi, other.lo, other.hi) {
            let (lo, hi) = limbs_sub(self.lo, self.hi, other.lo, other.hi);
            proof {
                lemma_mod_small(self@ - other@);
            }
            Field { lo, hi }
        } else {
            let (d_lo, d_hi) = limbs_sub(other.lo, other.hi, self.lo, self.hi);
            let (lo, hi) = limbs_sub(MODULUS_LO, MODULUS_HI, d_lo, d_hi);
            proof {
                lemma_mod_shift(self@ - other@);
            }
            Field { lo, hi }
        }
    }
}

proof fn lemma_mod_small(x: int)
    requires
        0 <= x < modulus(),
    ensures
        x % modulus() == x,
{
    vstd::arithmetic::div_mod::lemma_small_mod(x as nat, modulus() as nat);
}

proof fn lemma_mod_shift(x: int)
    requires
        -modulus() < x < 0,
    ensures
        x % modulus() == x + modulus(),
{
    vstd::arithmetic::div_mod::lemma_mod_add_multiples_vanish(x, modulus());
    lemma_mod_small(x + modulus());
}

} // verus!
