//! Elements of the Goldilocks field `p = 2^64 - 2^32 + 1` and of its quadratic
//! extension, with the conversions between them, machine words and bytes.
use crate::bytes::{
    chunk, chunk_count, le_value, le_word, lemma_le_value_bound, lemma_le_value_zero_extend,
    lemma_pow256_8, pad8,
};
use p3_field::extension::BinomiallyExtendable;
use p3_field::{PrimeField64, TwoAdicField};
use vstd::prelude::*;
use vstd::std_specs::cmp::PartialEqSpec;

verus! {

/// The Goldilocks prime `2^64 - 2^32 + 1`.
pub open spec fn goldilocks_prime() -> nat {
    0xFFFF_FFFF_0000_0001
}

/// The order of the prime field as the field crate defines it
/// (`PrimeField64::ORDER_U64` of `p3_goldilocks::Goldilocks`); the claim is that
/// this constant is the Goldilocks prime `2^64 - 2^32 + 1`.
#[verifier::external_body]
fn goldilocks_order_u64() -> (r: u64)
    ensures
        r == goldilocks_prime(),
{
    <p3_goldilocks::Goldilocks as PrimeField64>::ORDER_U64
}

/// `TwoAdicField::TWO_ADICITY` of `p3_goldilocks::Goldilocks`; the claim is that
/// it is 32 (`2^32` is the largest power of two dividing `p - 1`).
#[verifier::external_body]
fn goldilocks_two_adicity() -> (r: usize)
    ensures
        r == 32,
{
    <p3_goldilocks::Goldilocks as TwoAdicField>::TWO_ADICITY
}

/// `BinomiallyExtendable::<2>::W` of `p3_goldilocks::Goldilocks`, the
/// non-residue `w` of the extension `F[X] / (X^2 - w)`, read canonically; the
/// claim is that it is 7.
#[verifier::external_body]
fn goldilocks_ext2_w() -> (r: u64)
    ensures
        r == 7,
{
    <p3_goldilocks::Goldilocks as BinomiallyExtendable<2>>::W.as_canonical_u64()
}

/// `BinomiallyExtendable::<2>::EXT_GENERATOR` of `p3_goldilocks::Goldilocks`,
/// the coefficients of the generator of the extension field's multiplicative
/// group (the field crate's `GENERATOR` of the extension is built from them),
/// read canonically; the claim is that they are the two words below.
#[verifier::external_body]
fn goldilocks_ext2_generator() -> (r: [u64; 2])
    ensures
        r@ == seq![18081566051660590251u64, 16121475356294670766u64],
{
    <p3_goldilocks::Goldilocks as BinomiallyExtendable<2>>::EXT_GENERATOR.map(|c| c.as_canonical_u64())
}

/// An element of the Goldilocks field, held as a 64-bit representative that
/// need not be reduced: the representative `r` stands for `r mod p`.
#[derive(Clone, Copy, Debug)]
pub struct Goldilocks {
    value: u64,
}

/// Two elements are equal when they are the same field element, whatever their
/// stored representatives.
impl PartialEq for Goldilocks {
    fn eq(&self, other: &Self) -> (r: bool) {
        self.to_canonical_u64() == other.to_canonical_u64()
    }
}

impl Eq for Goldilocks {}

impl vstd::std_specs::cmp::PartialEqSpecImpl for Goldilocks {
    open spec fn obeys_eq_spec() -> bool {
        true
    }

    open spec fn eq_spec(&self, other: &Self) -> bool {
        self@ == other@
    }
}

impl View for Goldilocks {
    type V = nat;

    /// The field element, as the canonical integer in `[0, p)`.
    open spec fn view(&self) -> nat {
        self.repr() as nat % goldilocks_prime()
    }
}

impl Goldilocks {
    /// The field's modulus `p` as a word (`SmallField::MODULUS_U64`).
    pub fn modulus_u64() -> (r: u64)
        ensures
            r == goldilocks_prime(),
    {
        goldilocks_order_u64()
    }

    /// The stored representative.
    pub closed spec fn repr(&self) -> u64 {
        self.value
    }

    /// The field element that a machine word stands for (`FieldFrom<u64>`): the
    /// word is kept as it is, as a representative of its residue.
    pub fn from_v(v: u64) -> (r: Self)
        ensures
            r.repr() == v,
            r@ == v as nat % goldilocks_prime(),
    {
        Goldilocks { value: v }
    }

    /// The stored representative, as a machine word.
    pub fn repr_u64(&self) -> (r: u64)
        ensures
            r == self.repr(),
    {
        self.value
    }

    /// The element itself, as an element of the base field (`FieldInto`).
    pub fn into_f(self) -> (r: Goldilocks)
        ensures
            r == self,
    {
        self
    }

    /// The canonical representative in `[0, p)`.
    pub fn to_canonical_u64(&self) -> (r: u64)
        ensures
            r == self@,
            r < goldilocks_prime(),
    {
        let order = goldilocks_order_u64();
        if self.value >= order {
            self.value - order
        } else {
            self.value
        }
    }

    /// The element whose canonical representative is the little-endian word of
    /// `bytes`, or `None` where that word is `p` or more (`FromUniformBytes`).
    pub fn try_from_uniform_bytes(bytes: [u8; 8]) -> (r: Option<Goldilocks>)
        ensures
            r is Some <==> le_value(bytes@) < goldilocks_prime(),
            r matches Some(x) ==> x.repr() == le_value(bytes@),
    {
        let value = le_word(bytes.as_slice(), 0, 8);
        proof {
            assert(bytes@.subrange(0, 8) =~= bytes@);
        }
        let is_canonical = value < goldilocks_order_u64();
        if is_canonical {
            Some(Goldilocks::from_v(value))
        } else {
            None
        }
    }

    /// Cuts `bytes` into chunks of eight, pads the last one with zeros, and reads
    /// each as a little-endian word that stands for a field element
    /// (`SmallField::bytes_to_field_elements`). The words are read little-endian
    /// on every target; a reading in the machine's native byte order agrees with
    /// this on little-endian targets only.
    pub fn bytes_to_field_elements(bytes: &[u8]) -> (r: Vec<Goldilocks>)
        ensures
            r@.len() == chunk_count(bytes@.len()),
            forall|i: int|
                0 <= i < r@.len() ==> (#[trigger] r@[i]).repr() == le_value(
                    pad8(chunk(bytes@, i)),
                ),
            forall|i: int|
                0 <= i < r@.len() ==> (#[trigger] r@[i]).repr() == le_value(chunk(bytes@, i)),
    {
        let n = bytes.len();
        let count: usize = n / 8 + if n % 8 == 0 { 0 } else { 1 };
        assert(count == chunk_count(n as nat));
        let mut out: Vec<Goldilocks> = Vec::new();
        let mut i: usize = 0;
        while i < count
            invariant
                n == bytes@.len(),
                count == chunk_count(n as nat),
                i <= count,
                out@.len() == i,
                forall|k: int|
                    0 <= k < out@.len() ==> (#[trigger] out@[k]).repr() == le_value(
                        pad8(chunk(bytes@, k)),
                    ),
                forall|k: int|
                    0 <= k < out@.len() ==> (#[trigger] out@[k]).repr() == le_value(
                        chunk(bytes@, k),
                    ),
            decreases count - i,
        {
            assert(8 * i < n) by (nonlinear_arith)
                requires
                    i < count,
                    count == n / 8 + if n % 8 == 0 { 0int } else { 1int },
            ;
            let start = 8 * i;
            let end = if n - start >= 8 { start + 8 } else { n };
            let word = le_word(bytes, start, end);
            proof {
                assert(chunk(bytes@, i as int) == bytes@.subrange(start as int, end as int));
                lemma_le_value_zero_extend(
                    chunk(bytes@, i as int),
                    (8 - chunk(bytes@, i as int).len()) as nat,
                );
            }
            out.push(Goldilocks::from_v(word));
            i = i + 1;
        }
        out
    }
}

/// The degree of the extension field over the base field (`ExtensionField::DEGREE`).
pub const EXT_DEGREE: usize = 2;

/// An element `c0 + c1 * X` of the quadratic extension `F[X] / (X^2 - 7)` of the
/// Goldilocks field, held by its two base-field coefficients.
#[derive(Clone, Copy, Debug)]
pub struct GoldilocksExt2 {
    value: [Goldilocks; 2],
}

impl View for GoldilocksExt2 {
    type V = Seq<nat>;

    /// The canonical integers of the coefficients, constant term first.
    open spec fn view(&self) -> Seq<nat> {
        Seq::new(2, |i: int| self.coeffs()[i]@)
    }
}

impl GoldilocksExt2 {
    /// The coefficients, constant term first.
    pub closed spec fn coeffs(&self) -> Seq<Goldilocks> {
        self.value@
    }

    /// The element `c0 + c1 * X`.
    pub fn new(c0: Goldilocks, c1: Goldilocks) -> (r: Self)
        ensures
            r.coeffs() == seq![c0, c1],
    {
        let r = GoldilocksExt2 { value: [c0, c1] };
        assert(r.coeffs() =~= seq![c0, c1]);
        r
    }

    /// The element of the base field that a machine word stands for, embedded
    /// in the extension (`FieldFrom<u64>`): constant term `v`, other term zero.
    pub fn from_v(v: u64) -> (r: Self)
        ensures
            r.coeffs().len() == 2,
            r.coeffs()[0].repr() == v,
            r.coeffs()[1].repr() == 0,
            r@ == seq![v as nat % goldilocks_prime(), 0nat],
    {
        let r = GoldilocksExt2::new(Goldilocks::from_v(v), Goldilocks::from_v(0));
        assert(r@ =~= seq![v as nat % goldilocks_prime(), 0nat]);
        r
    }

    /// The exponent of the largest power of two dividing the order of the base
    /// field's multiplicative group (`ExtensionField::TWO_ADICITY`).
    pub fn two_adicity() -> (r: usize)
        ensures
            r == 32,
    {
        goldilocks_two_adicity()
    }

    /// The non-residue `w` of `F[X] / (X^2 - w)` (`ExtensionField::NONRESIDUE`).
    pub fn nonresidue() -> (r: Goldilocks)
        ensures
            r.repr() == 7,
            r@ == 7,
    {
        Goldilocks::from_v(goldilocks_ext2_w())
    }

    /// The generator of the extension field's multiplicative group
    /// (`ExtensionField::MULTIPLICATIVE_GENERATOR`).
    pub fn multiplicative_generator() -> (r: Self)
        ensures
            r.coeffs().len() == 2,
            r.coeffs()[0].repr() == 18081566051660590251u64,
            r.coeffs()[1].repr() == 16121475356294670766u64,
            r@ == seq![18081566051660590251nat, 16121475356294670766nat],
    {
        let g = goldilocks_ext2_generator();
        let r = GoldilocksExt2::new(Goldilocks::from_v(g[0]), Goldilocks::from_v(g[1]));
        assert(r@ =~= seq![18081566051660590251nat, 16121475356294670766nat]);
        r
    }

    /// The element whose coefficients are the little-endian words of the two
    /// halves of `bytes`, constant term first, or `None` where either word is
    /// `p` or more (`FromUniformBytes`, coefficient by coefficient as for the
    /// base field).
    pub fn try_from_uniform_bytes(bytes: [u8; 16]) -> (r: Option<Self>)
        ensures
            r is Some <==> (le_value(bytes@.subrange(0, 8)) < goldilocks_prime() && le_value(
                bytes@.subrange(8, 16),
            ) < goldilocks_prime()),
            r matches Some(x) ==> x.coeffs().len() == 2 && x.coeffs()[0].repr() == le_value(
                bytes@.subrange(0, 8),
            ) && x.coeffs()[1].repr() == le_value(bytes@.subrange(8, 16)),
    {
        let c0 = le_word(bytes.as_slice(), 0, 8);
        let c1 = le_word(bytes.as_slice(), 8, 16);
        let order = goldilocks_order_u64();
        if c0 < order && c1 < order {
            Some(GoldilocksExt2::new(Goldilocks::from_v(c0), Goldilocks::from_v(c1)))
        } else {
            None
        }
    }

    /// The canonical representatives of the coefficients, constant term first
    /// (`ExtensionField::to_canonical_u64_vec`).
    pub fn to_canonical_u64_vec(&self) -> (r: Vec<u64>)
        ensures
            r@.len() == EXT_DEGREE,
            forall|i: int| 0 <= i < EXT_DEGREE ==> r@[i] == self@[i],
    {
        let mut out: Vec<u64> = Vec::new();
        let mut i: usize = 0;
        while i < EXT_DEGREE
            invariant
                i <= EXT_DEGREE,
                out@.len() == i,
                forall|k: int| 0 <= k < i ==> out@[k] == self@[k],
            decreases EXT_DEGREE - i,
        {
            out.push(self.value[i].to_canonical_u64());
            i = i + 1;
        }
        out
    }
}

/// Equality of elements is equality in the field: two elements compare equal
/// exactly when their representatives are congruent mod `p`. In particular two
/// distinct canonical words never compare equal, and a word compares equal to
/// the word `p` above it.
pub proof fn law_eq_is_field_equality(a: Goldilocks, b: Goldilocks)
    ensures
        a.eq_spec(&b) <==> (a.repr() as nat % goldilocks_prime() == b.repr() as nat
            % goldilocks_prime()),
        (a.repr() < goldilocks_prime() && b.repr() < goldilocks_prime()) ==> (a.eq_spec(&b)
            <==> a.repr() == b.repr()),
        a.repr() as nat + goldilocks_prime() == b.repr() as nat ==> a.eq_spec(&b),
{
}

/// An element is determined by its stored representative.
pub proof fn lemma_repr_determines_element(a: Goldilocks, b: Goldilocks)
    requires
        a.repr() == b.repr(),
    ensures
        a == b,
{
}

/// A canonical word read into the field and read back canonically is the word
/// itself: for an element whose representative is below `p`, the canonical
/// representative (`to_canonical_u64`) is that representative.
pub proof fn law_canonical_word_roundtrip(g: Goldilocks)
    requires
        g.repr() < goldilocks_prime(),
    ensures
        g@ == g.repr(),
{
}

/// An element that `try_from_uniform_bytes` accepts gives back, as its canonical
/// representative, exactly the little-endian word of the bytes: uniform bytes
/// are never reduced.
pub proof fn law_uniform_bytes_not_reduced(bytes: [u8; 8], x: Goldilocks)
    requires
        le_value(bytes@) < goldilocks_prime(),
        x.repr() == le_value(bytes@),
    ensures
        x@ == le_value(bytes@),
{
}

/// Eight bytes make exactly one chunk, which needs no padding; so for eight
/// bytes `bytes_to_field_elements` yields one element with the same
/// representative as the one `try_from_uniform_bytes` accepts.
pub proof fn law_eight_bytes_one_element(bytes: [u8; 8])
    ensures
        chunk_count(bytes@.len()) == 1,
        pad8(chunk(bytes@, 0)) == bytes@,
{
    assert(chunk(bytes@, 0) =~= bytes@);
    assert(pad8(chunk(bytes@, 0)) =~= bytes@);
}

/// Every chunk that `bytes_to_field_elements` reads is padded to exactly eight
/// bytes, and its little-endian value is below `2^64`, so it fits a machine
/// word.
pub proof fn law_chunk_word_fits(bytes: Seq<u8>, i: int)
    requires
        0 <= i < chunk_count(bytes.len()),
    ensures
        pad8(chunk(bytes, i)).len() == 8,
        le_value(pad8(chunk(bytes, i))) < 0x1_0000_0000_0000_0000,
{
    lemma_le_value_bound(pad8(chunk(bytes, i)));
    lemma_pow256_8();
}

/// The base-field element that `from_v` embeds in the extension reads back, by
/// `to_canonical_u64_vec`, as the word followed by zero when the word is
/// canonical.
pub proof fn law_ext_from_v_roundtrip(e: GoldilocksExt2, v: u64)
    requires
        v < goldilocks_prime(),
        e.coeffs().len() == 2,
        e.coeffs()[0].repr() == v,
        e.coeffs()[1].repr() == 0,
    ensures
        e@ == seq![v as nat, 0nat],
{
    assert(e@ =~= seq![v as nat, 0nat]);
}

} // verus!
