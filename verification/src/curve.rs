//! Field and group elements of BLS12-381 as byte encodings, and the calls
//! into arkworks that compute with them.
//!
//! Everything in this file that carries `external_body` is believed, not
//! proved: each such function decodes its arguments, makes one arkworks call
//! and encodes the result.

use ark_bls12_381::{Fr, G1Affine, G1Projective, G2Affine, G2Projective};
use ark_ec::scalar_mul::BatchMulPreprocessing;
use ark_ec::{AffineRepr, CurveGroup};
use ark_ff::{BigInteger, PrimeField};
use ark_serialize::{CanonicalDeserialize, CanonicalSerialize};
use ark_std::rand::rngs::StdRng;
use ark_std::UniformRand;
use vstd::prelude::*;

verus! {

/// An element of the scalar field, as 32 little-endian bytes. Any 32 bytes
/// denote a scalar: they are read as an integer and reduced modulo the group
/// order.
#[derive(Clone, Copy, Debug, PartialEq, Eq)]
pub struct Scalar {
    pub bytes: [u8; 32],
}

/// A point of G1 in its 48-byte compressed encoding.
#[derive(Clone, Copy, Debug, PartialEq, Eq)]
pub struct G1Point {
    pub bytes: [u8; 48],
}

/// A point of G2 in its 96-byte compressed encoding.
#[derive(Clone, Copy, Debug, PartialEq, Eq)]
pub struct G2Point {
    pub bytes: [u8; 96],
}

/// The random number generator that parameter generation draws from,
/// `ark_std::rand::rngs::StdRng`. Opaque to the verifier.
#[verifier::external_type_specification]
#[verifier::external_body]
pub struct ExStdRng(StdRng);

/// Whether `G1Affine::deserialize_compressed` accepts `bytes`: they encode a
/// point on the curve that lies in the prime-order subgroup.
pub uninterp spec fn g1_encoding_valid(bytes: Seq<u8>) -> bool;

/// Whether `G2Affine::deserialize_compressed` accepts `bytes`.
pub uninterp spec fn g2_encoding_valid(bytes: Seq<u8>) -> bool;

/// The encoding of the product of the two scalars that `a` and `b` denote.
pub uninterp spec fn scalar_product(a: Seq<u8>, b: Seq<u8>) -> Seq<u8>;

/// The encodings of the multiples of the G1 point `base` by each of
/// `scalars`, in order.
pub uninterp spec fn g1_multiples(base: Seq<u8>, scalars: Seq<Seq<u8>>) -> Seq<Seq<u8>>;

/// The encoding of the multiple of the G2 point `base` by `scalar`.
pub uninterp spec fn g2_multiple(base: Seq<u8>, scalar: Seq<u8>) -> Seq<u8>;

/// The byte sequences of a sequence of scalars.
pub open spec fn scalar_encodings(scalars: Seq<Scalar>) -> Seq<Seq<u8>> {
    Seq::new(scalars.len(), |i: int| scalars[i].bytes@)
}

/// The byte sequences of a sequence of G1 points.
pub open spec fn g1_encodings(points: Seq<G1Point>) -> Seq<Seq<u8>> {
    Seq::new(points.len(), |i: int| points[i].bytes@)
}

/// Every point of the sequence is a valid encoding.
pub open spec fn all_g1_valid(points: Seq<G1Point>) -> bool {
    forall|i: int| 0 <= i < points.len() ==> g1_encoding_valid(#[trigger] points[i].bytes@)
}

/// Calls `G1Affine::deserialize_compressed` on the 48 bytes and reports
/// whether it succeeded.
#[verifier::external_body]
fn g1_decodes(bytes: &[u8; 48]) -> (ok: bool)
    ensures
        ok == g1_encoding_valid(bytes@),
{
    G1Affine::deserialize_compressed(&bytes[..]).is_ok()
}

/// Calls `G2Affine::deserialize_compressed` on the 96 bytes and reports
/// whether it succeeded.
#[verifier::external_body]
fn g2_decodes(bytes: &[u8; 96]) -> (ok: bool)
    ensures
        ok == g2_encoding_valid(bytes@),
{
    G2Affine::deserialize_compressed(&bytes[..]).is_ok()
}

/// Multiplies two scalars with the field multiplication of `Fr`. Both
/// arguments are read with `Fr::from_le_bytes_mod_order`, which accepts any
/// bytes; the product is written back as little-endian bytes. The contract
/// claims that the product's bytes are a function of the arguments' bytes.
#[verifier::external_body]
pub(crate) fn scalar_mul(a: &Scalar, b: &Scalar) -> (c: Scalar)
    ensures
        c.bytes@ == scalar_product(a.bytes@, b.bytes@),
{
    let prod = Fr::from_le_bytes_mod_order(&a.bytes) * Fr::from_le_bytes_mod_order(&b.bytes);
    let mut bytes = [0u8; 32];
    bytes.copy_from_slice(&prod.into_bigint().to_bytes_le());
    Scalar { bytes }
}

/// Multiplies one G1 point by many scalars with
/// `BatchMulPreprocessing::new` and `batch_mul`, which build a fixed-base
/// table once and return one affine point per scalar, in order. The contract
/// claims that there is one result per scalar, that the results are a
/// function of the encodings alone, that each result's encoding decodes
/// again, and that the multiple by the scalar one is the base itself: a
/// valid encoding is the only encoding of its point. The base must be a
/// valid encoding.
#[verifier::external_body]
pub(crate) fn g1_batch_mul(base: &G1Point, scalars: &Vec<Scalar>) -> (out: Vec<G1Point>)
    requires
        g1_encoding_valid(base.bytes@),
    ensures
        out@.len() == scalars@.len(),
        g1_encodings(out@) == g1_multiples(base.bytes@, scalar_encodings(scalars@)),
        all_g1_valid(out@),
        forall|i: int|
            0 <= i < scalars@.len() && scalars@[i].bytes@ == Scalar::one_bytes() ==> #[trigger] out@[i]
                == *base,
{
    let g = G1Affine::deserialize_compressed(&base.bytes[..]).unwrap().into_group();
    let exps: Vec<Fr> = scalars.iter().map(|s| Fr::from_le_bytes_mod_order(&s.bytes)).collect();
    let table = BatchMulPreprocessing::<G1Projective>::new(g, exps.len());
    let mut out = Vec::new();
    for p in table.batch_mul(&exps) {
        let mut bytes = [0u8; 48];
        p.serialize_compressed(&mut bytes[..]).unwrap();
        out.push(G1Point { bytes });
    }
    out
}

/// Multiplies a G2 point by a scalar with the `Mul` of `G2Affine` and
/// normalises with `into_affine`. The contract claims that the result is a
/// function of the encodings alone and that its encoding decodes again. The
/// base must be a valid encoding.
#[verifier::external_body]
pub(crate) fn g2_mul(base: &G2Point, scalar: &Scalar) -> (out: G2Point)
    requires
        g2_encoding_valid(base.bytes@),
    ensures
        out.bytes@ == g2_multiple(base.bytes@, scalar.bytes@),
        g2_encoding_valid(out.bytes@),
{
    let h = G2Affine::deserialize_compressed(&base.bytes[..]).unwrap();
    let prod = (h * Fr::from_le_bytes_mod_order(&scalar.bytes)).into_affine();
    let mut bytes = [0u8; 96];
    prod.serialize_compressed(&mut bytes[..]).unwrap();
    G2Point { bytes }
}

/// Draws a scalar with `Fr::rand`. Nothing is claimed of the value.
#[verifier::external_body]
pub(crate) fn sample_scalar(rng: &mut StdRng) -> (s: Scalar) {
    let mut bytes = [0u8; 32];
    bytes.copy_from_slice(&Fr::rand(rng).into_bigint().to_bytes_le());
    Scalar { bytes }
}

/// Draws a G1 point with `G1Projective::rand`. Of every outcome the contract
/// claims only that its encoding decodes.
#[verifier::external_body]
pub(crate) fn sample_g1(rng: &mut StdRng) -> (p: G1Point)
    ensures
        g1_encoding_valid(p.bytes@),
{
    let mut bytes = [0u8; 48];
    G1Projective::rand(rng).into_affine().serialize_compressed(&mut bytes[..]).unwrap();
    G1Point { bytes }
}

/// Draws a G2 point with `G2Projective::rand`. Of every outcome the contract
/// claims only that its encoding decodes.
#[verifier::external_body]
pub(crate) fn sample_g2(rng: &mut StdRng) -> (p: G2Point)
    ensures
        g2_encoding_valid(p.bytes@),
{
    let mut bytes = [0u8; 96];
    G2Projective::rand(rng).into_affine().serialize_compressed(&mut bytes[..]).unwrap();
    G2Point { bytes }
}

impl Scalar {
    /// The bytes of the scalar one: a 1 followed by 31 zeros.
    pub open spec fn one_bytes() -> Seq<u8> {
        Seq::new(32, |i: int| if i == 0 { 1u8 } else { 0u8 })
    }

    /// The scalar one.
    pub fn one() -> (s: Scalar)
        ensures
            s.bytes@ == Scalar::one_bytes(),
    {
        let mut bytes = [0u8; 32];
        bytes[0] = 1u8;
        assert(bytes@ =~= Scalar::one_bytes());
        Scalar { bytes }
    }
}

impl G1Point {
    /// The encoding denotes a point of the prime-order subgroup of G1.
    pub open spec fn valid(&self) -> bool {
        g1_encoding_valid(self.bytes@)
    }

    /// Checks that the bytes decode to a point of the subgroup.
    pub fn is_valid(&self) -> (ok: bool)
        ensures
            ok == self.valid(),
    {
        g1_decodes(&self.bytes)
    }
}

impl G2Point {
    /// The encoding denotes a point of the prime-order subgroup of G2.
    pub open spec fn valid(&self) -> bool {
        g2_encoding_valid(self.bytes@)
    }

    /// Checks that the bytes decode to a point of the subgroup.
    pub fn is_valid(&self) -> (ok: bool)
        ensures
            ok == self.valid(),
    {
        g2_decodes(&self.bytes)
    }
}

} // verus!
