//! Elements of the base field of the Pallas curve, held in canonical form.

use vstd::prelude::*;

verus! {

/// `2^64`, the weight of the second limb.
pub open spec fn pow64() -> nat {
    0x1_0000_0000_0000_0000nat
}

/// `2^128`, the weight of the third limb.
pub open spec fn pow128() -> nat {
    0x1_0000_0000_0000_0000_0000_0000_0000_0000nat
}

/// `2^192`, the weight of the fourth limb.
pub open spec fn pow192() -> nat {
    0x1_0000_0000_0000_0000_0000_0000_0000_0000_0000_0000_0000_0000nat
}

/// The field's modulus `p`.
pub open spec fn modulus() -> nat {
    0x40000000000000000000000000000000224698fc094cf91b992d30ed00000001nat
}

/// The number that four little-endian 64-bit limbs stand for.
pub open spec fn limbs_value(limbs: Seq<u64>) -> nat
    recommends
        limbs.len() == 4,
{
    (limbs[0] as nat) + (limbs[1] as nat) * pow64() + (limbs[2] as nat) * pow128() + (
    limbs[3] as nat) * pow192()
}

/// Byte `j` of a limb, counted from the least significant.
pub open spec fn limb_byte(limb: u64, j: int) -> u8 {
    ((limb >> ((8 * j) as u64)) & 0xff) as u8
}

/// The 32 bytes of four limbs, least significant first.
pub open spec fn limbs_bytes(limbs: Seq<u64>) -> Seq<u8> {
    Seq::new(32, |i: int| limb_byte(limbs[i / 8], i % 8))
}

/// The limb that eight bytes stand for, least significant first.
pub open spec fn bytes_limb(b: Seq<u8>) -> u64
    recommends
        b.len() == 8,
{
    (b[0] as u64) | (b[1] as u64) << 8 | (b[2] as u64) << 16 | (b[3] as u64) << 24 | (b[4] as u64)
        << 32 | (b[5] as u64) << 40 | (b[6] as u64) << 48 | (b[7] as u64) << 56
}

/// The four limbs that 32 bytes stand for, least significant first.
pub open spec fn bytes_limbs(bytes: Seq<u8>) -> Seq<u64>
    recommends
        bytes.len() == 32,
{
    Seq::new(4, |k: int| bytes_limb(bytes.subrange(8 * k, 8 * k + 8)))
}

/// Whether four limbs stand for a number below the modulus.
pub open spec fn limbs_reduced(limbs: Seq<u64>) -> bool {
    limbs.len() == 4 && limbs_value(limbs) < modulus()
}

/// Splitting a limb into its bytes and joining them again gives the limb.
pub proof fn lemma_limb_bytes_round_trip(limb: u64)
    ensures
        bytes_limb(Seq::new(8, |j: int| limb_byte(limb, j))) == limb,
{
    let b = Seq::new(8, |j: int| limb_byte(limb, j));
    assert(b[0] == limb_byte(limb, 0));
    assert(b[1] == limb_byte(limb, 1));
    assert(b[2] == limb_byte(limb, 2));
    assert(b[3] == limb_byte(limb, 3));
    assert(b[4] == limb_byte(limb, 4));
    assert(b[5] == limb_byte(limb, 5));
    assert(b[6] == limb_byte(limb, 6));
    assert(b[7] == limb_byte(limb, 7));
    assert((((limb >> 0u64) & 0xff) as u8 as u64) | (((limb >> 8u64) & 0xff) as u8 as u64) << 8 | (((
    limb >> 16u64) & 0xff) as u8 as u64) << 16 | (((limb >> 24u64) & 0xff) as u8 as u64) << 24 | (((
    limb >> 32u64) & 0xff) as u8 as u64) << 32 | (((limb >> 40u64) & 0xff) as u8 as u64) << 40 | (((
    limb >> 48u64) & 0xff) as u8 as u64) << 48 | (((limb >> 56u64) & 0xff) as u8 as u64) << 56
        == limb) by (bit_vector);
}

/// Joining eight bytes into a limb and splitting it again gives the bytes.
pub proof fn lemma_bytes_limb_round_trip(b: Seq<u8>, j: int)
    requires
        b.len() == 8,
        0 <= j < 8,
    ensures
        limb_byte(bytes_limb(b), j) == b[j],
{
    let b0 = b[0];
    let b1 = b[1];
    let b2 = b[2];
    let b3 = b[3];
    let b4 = b[4];
    let b5 = b[5];
    let b6 = b[6];
    let b7 = b[7];
    let limb = (b0 as u64) | (b1 as u64) << 8 | (b2 as u64) << 16 | (b3 as u64) << 24 | (b4 as u64)
        << 32 | (b5 as u64) << 40 | (b6 as u64) << 48 | (b7 as u64) << 56;
    assert(limb == bytes_limb(b));
    assert(((limb >> 0u64) & 0xff) as u8 == b0 && ((limb >> 8u64) & 0xff) as u8 == b1 && ((limb
        >> 16u64) & 0xff) as u8 == b2 && ((limb >> 24u64) & 0xff) as u8 == b3 && ((limb >> 32u64)
        & 0xff) as u8 == b4 && ((limb >> 40u64) & 0xff) as u8 == b5 && ((limb >> 48u64) & 0xff) as u8
        == b6 && ((limb >> 56u64) & 0xff) as u8 == b7) by (bit_vector)
        requires
            limb == (b0 as u64) | (b1 as u64) << 8 | (b2 as u64) << 16 | (b3 as u64) << 24 | (
            b4 as u64) << 32 | (b5 as u64) << 40 | (b6 as u64) << 48 | (b7 as u64) << 56,
    ;
}

/// The bytes of a number below 256: the number itself, then zeros.
pub proof fn lemma_small_limb_bytes(limb: u64, j: int)
    requires
        limb < 256,
        0 <= j < 8,
    ensures
        limb_byte(limb, j) == (if j == 0 {
            limb as u8
        } else {
            0u8
        }),
        limb_byte(0, j) == 0,
{
    assert(((limb >> 0u64) & 0xff) as u8 == limb as u8 && ((limb >> 8u64) & 0xff) as u8 == 0 && ((
    limb >> 16u64) & 0xff) as u8 == 0 && ((limb >> 24u64) & 0xff) as u8 == 0 && ((limb >> 32u64)
        & 0xff) as u8 == 0 && ((limb >> 40u64) & 0xff) as u8 == 0 && ((limb >> 48u64) & 0xff) as u8
        == 0 && ((limb >> 56u64) & 0xff) as u8 == 0) by (bit_vector)
        requires
            limb < 256,
    ;
    assert(((0u64 >> 0u64) & 0xff) as u8 == 0 && ((0u64 >> 8u64) & 0xff) as u8 == 0 && ((0u64
        >> 16u64) & 0xff) as u8 == 0 && ((0u64 >> 24u64) & 0xff) as u8 == 0 && ((0u64 >> 32u64)
        & 0xff) as u8 == 0 && ((0u64 >> 40u64) & 0xff) as u8 == 0 && ((0u64 >> 48u64) & 0xff) as u8
        == 0 && ((0u64 >> 56u64) & 0xff) as u8 == 0) by (bit_vector);
}

/// Two sets of four limbs that stand for the same number are the same.
pub proof fn lemma_limbs_value_injective(a: Seq<u64>, b: Seq<u64>)
    requires
        a.len() == 4,
        b.len() == 4,
        limbs_value(a) == limbs_value(b),
    ensures
        a == b,
{
    let p = 0x1_0000_0000_0000_0000int;
    let ha = a[1] + a[2] * p + a[3] * p * p;
    let hb = b[1] + b[2] * p + b[3] * p * p;
    assert(limbs_value(a) == a[0] + ha * p);
    assert(limbs_value(b) == b[0] + hb * p);
    assert(a[0] == b[0] && ha == hb) by {
        vstd::arithmetic::div_mod::lemma_fundamental_div_mod_converse(
            limbs_value(a) as int,
            p,
            ha,
            a[0] as int,
        );
        vstd::arithmetic::div_mod::lemma_fundamental_div_mod_converse(
            limbs_value(b) as int,
            p,
            hb,
            b[0] as int,
        );
    }
    let ga = a[2] + a[3] * p;
    let gb = b[2] + b[3] * p;
    assert(ha == a[1] + ga * p);
    assert(hb == b[1] + gb * p);
    assert(a[1] == b[1] && ga == gb) by {
        vstd::arithmetic::div_mod::lemma_fundamental_div_mod_converse(ha, p, ga, a[1] as int);
        vstd::arithmetic::div_mod::lemma_fundamental_div_mod_converse(hb, p, gb, b[1] as int);
    }
    assert(a[2] == b[2] && a[3] == b[3]) by {
        vstd::arithmetic::div_mod::lemma_fundamental_div_mod_converse(
            ga,
            p,
            a[3] as int,
            a[2] as int,
        );
        vstd::arithmetic::div_mod::lemma_fundamental_div_mod_converse(
            gb,
            p,
            b[3] as int,
            b[2] as int,
        );
    }
    assert(a =~= b);
}

/// Joining 32 bytes into four limbs and splitting them again gives the bytes.
pub proof fn lemma_bytes_limbs_round_trip(bytes: Seq<u8>)
    requires
        bytes.len() == 32,
    ensures
        limbs_bytes(bytes_limbs(bytes)) == bytes,
{
    let limbs = bytes_limbs(bytes);
    assert forall|i: int| 0 <= i < 32 implies #[trigger] limbs_bytes(limbs)[i] == bytes[i] by {
        let k = i / 8;
        let j = i % 8;
        let part = bytes.subrange(8 * k, 8 * k + 8);
        lemma_bytes_limb_round_trip(part, j);
        assert(part[j] == bytes[8 * k + j]);
    }
    assert(limbs_bytes(limbs) =~= bytes);
}

/// The least significant limb of the modulus.
pub const MODULUS_LIMB_0: u64 = 0x992d30ed00000001;

/// The second limb of the modulus.
pub const MODULUS_LIMB_1: u64 = 0x224698fc094cf91b;

/// The third limb of the modulus.
pub const MODULUS_LIMB_2: u64 = 0;

/// The most significant limb of the modulus.
pub const MODULUS_LIMB_3: u64 = 0x4000000000000000;

/// A field element: a number below the modulus, as four little-endian limbs.
#[derive(Clone, Copy, Debug, PartialEq, Eq)]
pub struct FieldElement {
    limbs: [u64; 4],
}

impl View for FieldElement {
    type V = nat;

    open spec fn view(&self) -> nat {
        limbs_value(self.spec_limbs())
    }
}

impl FieldElement {
    /// The limbs, least significant first.
    pub closed spec fn spec_limbs(&self) -> Seq<u64> {
        self.limbs@
    }

    /// Every element is reduced: its value lies below the modulus.
    #[verifier::type_invariant]
    pub open spec fn wf(&self) -> bool {
        &&& self.spec_limbs().len() == 4
        &&& limbs_value(self.spec_limbs()) < modulus()
    }

    /// The element zero.
    pub fn zero() -> (r: FieldElement)
        ensures
            r@ == 0,
            r.spec_limbs() == seq![0u64, 0u64, 0u64, 0u64],
            r.wf(),
    {
        let r = FieldElement { limbs: [0, 0, 0, 0] };
        proof {
            assert(r.limbs@ =~= seq![0u64, 0u64, 0u64, 0u64]);
        }
        r
    }

    /// Embeds a 64-bit integer; every such integer lies below the modulus.
    pub fn from_u64(v: u64) -> (r: FieldElement)
        ensures
            r@ == v,
            r.spec_limbs() == seq![v, 0u64, 0u64, 0u64],
            r.wf(),
    {
        let r = FieldElement { limbs: [v, 0, 0, 0] };
        proof {
            assert(r.limbs@ =~= seq![v, 0u64, 0u64, 0u64]);
        }
        r
    }

    /// The element that the limbs stand for, if they are reduced.
    pub fn from_limbs(limbs: [u64; 4]) -> (r: Option<FieldElement>)
        ensures
            r.is_some() <==> limbs_value(limbs@) < modulus(),
            r matches Some(e) ==> e.spec_limbs() == limbs@ && e.wf(),
    {
        let below = limbs[3] < MODULUS_LIMB_3 || (limbs[3] == MODULUS_LIMB_3 && limbs[2]
            == MODULUS_LIMB_2 && (limbs[1] < MODULUS_LIMB_1 || (limbs[1] == MODULUS_LIMB_1
            && limbs[0] < MODULUS_LIMB_0)));
        if below {
            Some(FieldElement { limbs })
        } else {
            None
        }
    }

    /// The limbs, least significant first.
    pub fn limbs(&self) -> (r: [u64; 4])
        ensures
            r@ == self.spec_limbs(),
            limbs_value(r@) == self@,
    {
        self.limbs
    }

    /// The canonical 32-byte form, least significant byte first.
    pub open spec fn spec_to_bytes(&self) -> Seq<u8> {
        limbs_bytes(self.spec_limbs())
    }

    /// The canonical 32-byte form, least significant byte first.
    pub fn to_bytes(&self) -> (bytes: Vec<u8>)
        ensures
            bytes@ == self.spec_to_bytes(),
            bytes@.len() == 32,
    {
        let mut bytes: Vec<u8> = Vec::new();
        let mut k: usize = 0;
        while k < 4
            invariant
                k <= 4,
                bytes@.len() == 8 * k,
                forall|i: int|
                    0 <= i < 8 * k ==> #[trigger] bytes@[i] == limb_byte(self.limbs@[i / 8], i % 8),
            decreases 4 - k,
        {
            let limb: u64 = self.limbs[k];
            let mut j: u64 = 0;
            while j < 8
                invariant
                    k < 4,
                    j <= 8,
                    limb == self.limbs@[k as int],
                    bytes@.len() == 8 * k + j,
                    forall|i: int|
                        0 <= i < 8 * k + j ==> #[trigger] bytes@[i] == limb_byte(
                            self.limbs@[i / 8],
                            i % 8,
                        ),
                decreases 8 - j,
            {
                let shift: u64 = 8 * j;
                let byte: u8 = ((limb >> shift) & 0xff) as u8;
                bytes.push(byte);
                j = j + 1;
            }
            k = k + 1;
        }
        proof {
            assert(bytes@ =~= limbs_bytes(self.limbs@));
        }
        bytes
    }

    /// The element with the given canonical 32-byte form, if there is one:
    /// the bytes must be 32 and stand for a number below the modulus.
    pub fn from_bytes(bytes: &[u8]) -> (r: Option<FieldElement>)
        ensures
            r.is_some() <==> bytes@.len() == 32 && limbs_reduced(bytes_limbs(bytes@)),
            r matches Some(e) ==> e.spec_limbs() == bytes_limbs(bytes@) && e.spec_to_bytes()
                == bytes@ && e.wf(),
    {
        if bytes.len() != 32 {
            return None;
        }
        let mut limbs: [u64; 4] = [0, 0, 0, 0];
        let mut k: usize = 0;
        while k < 4
            invariant
                k <= 4,
                bytes@.len() == 32,
                forall|i: int| 0 <= i < k ==> #[trigger] limbs@[i] == bytes_limbs(bytes@)[i],
            decreases 4 - k,
        {
            let base: usize = 8 * k;
            let limb: u64 = (bytes[base] as u64) | (bytes[base + 1] as u64) << 8 | (bytes[base
                + 2] as u64) << 16 | (bytes[base + 3] as u64) << 24 | (bytes[base + 4] as u64) << 32
                | (bytes[base + 5] as u64) << 40 | (bytes[base + 6] as u64) << 48 | (bytes[base
                + 7] as u64) << 56;
            proof {
                let part = bytes@.subrange(8 * k, 8 * k + 8);
                assert(part[0] == bytes@[base as int]);
                assert(part[1] == bytes@[base + 1]);
                assert(part[2] == bytes@[base + 2]);
                assert(part[3] == bytes@[base + 3]);
                assert(part[4] == bytes@[base + 4]);
                assert(part[5] == bytes@[base + 5]);
                assert(part[6] == bytes@[base + 6]);
                assert(part[7] == bytes@[base + 7]);
                assert(limb == bytes_limb(part));
            }
            limbs[k] = limb;
            k = k + 1;
        }
        proof {
            assert(limbs@ =~= bytes_limbs(bytes@));
            lemma_bytes_limbs_round_trip(bytes@);
        }
        FieldElement::from_limbs(limbs)
    }

    /// The low 32 bits of the element.
    pub fn get_lower_32(&self) -> (r: u32)
        ensures
            r == self@ % 0x1_0000_0000,
    {
        let low: u64 = self.limbs[0];
        let masked: u64 = low & 0xffff_ffff;
        proof {
            use_type_invariant(self);
            assert(masked == low % 0x1_0000_0000 && masked <= 0xffff_ffff) by (bit_vector)
                requires
                    masked == low & 0xffff_ffff,
            ;
            let high = self.limbs@[1] * 0x1_0000_0000 + self.limbs@[2]
                * 0x1_0000_0000_0000_0000_0000_0000 + self.limbs@[3]
                * 0x1_0000_0000_0000_0000_0000_0000_0000_0000_0000_0000;
            let q = (low as int) / 0x1_0000_0000 + high;
            assert(self@ == q * 0x1_0000_0000 + (low as int) % 0x1_0000_0000);
            vstd::arithmetic::div_mod::lemma_fundamental_div_mod_converse(
                self@ as int,
                0x1_0000_0000,
                q,
                (low as int) % 0x1_0000_0000,
            );
        }
        let r: u32 = masked as u32;
        r
    }

    /// Whether two elements are the same number.
    pub fn equals(&self, other: &FieldElement) -> (r: bool)
        ensures
            r == (self@ == other@),
    {
        proof {
            use_type_invariant(self);
            use_type_invariant(other);
            if self@ == other@ {
                lemma_limbs_value_injective(self.limbs@, other.limbs@);
            }
        }
        self.limbs[0] == other.limbs[0] && self.limbs[1] == other.limbs[1] && self.limbs[2]
            == other.limbs[2] && self.limbs[3] == other.limbs[3]
    }
}

} // verus!
