//! Universal, prover and verifier parameters, and the operations on them.

use crate::curve::{
    all_g1_valid, g1_batch_mul, g1_encodings, g1_multiples, g2_mul, g2_multiple, sample_g1,
    sample_g2, sample_scalar, scalar_encodings, scalar_mul, scalar_product, G1Point, G2Point,
    Scalar,
};
use crate::error::SrsError;
use ark_std::rand::rngs::StdRng;
use vstd::prelude::*;

verus! {

/// The full structured reference string: `powers_of_g[i]` is the G1
/// generator multiplied by the `i`-th power of the trapdoor.
#[derive(Clone, Debug, PartialEq, Eq)]
pub struct UnivariateUniversalParams {
    /// The generator of G1 multiplied by the powers of the trapdoor, from
    /// power 0 up to the maximum degree.
    pub powers_of_g: Vec<G1Point>,
    /// The generator of G2.
    pub h: G2Point,
    /// The trapdoor times the generator of G2.
    pub beta_h: G2Point,
}

/// Universal parameters as mathematical values.
pub struct UniversalParamsModel {
    pub powers_of_g: Seq<G1Point>,
    pub h: G2Point,
    pub beta_h: G2Point,
}

impl View for UnivariateUniversalParams {
    type V = UniversalParamsModel;

    open spec fn view(&self) -> UniversalParamsModel {
        UniversalParamsModel { powers_of_g: self.powers_of_g@, h: self.h, beta_h: self.beta_h }
    }
}

/// What a prover needs for polynomials up to a degree bound.
#[derive(Clone, Debug, PartialEq, Eq)]
pub struct UnivariateProverParam {
    /// A prefix of the powers of a universal parameter set.
    pub powers_of_g: Vec<G1Point>,
}

/// What a verifier needs; the same for every degree bound.
#[derive(Clone, Copy, Debug, PartialEq, Eq)]
pub struct UnivariateVerifierParam {
    /// The generator of G1.
    pub g: G1Point,
    /// The generator of G2.
    pub h: G2Point,
    /// The trapdoor times the generator of G2.
    pub beta_h: G2Point,
}

/// The encodings of the powers of the scalar `beta` from exponent 0 up to
/// `max_degree`: the first is one, and each next one is the product of its
/// predecessor with `beta`.
pub open spec fn scalar_powers(beta: Seq<u8>, max_degree: nat) -> Seq<Seq<u8>>
    decreases max_degree,
{
    if max_degree == 0 {
        seq![Scalar::one_bytes()]
    } else {
        let lower = scalar_powers(beta, (max_degree - 1) as nat);
        lower.push(scalar_product(lower.last(), beta))
    }
}

/// The powers of a scalar start with one, and there is one for each
/// exponent up to `max_degree`.
pub proof fn lemma_first_power_is_one(beta: Seq<u8>, max_degree: nat)
    ensures
        scalar_powers(beta, max_degree).len() == max_degree + 1,
        scalar_powers(beta, max_degree)[0] == Scalar::one_bytes(),
    decreases max_degree,
{
    if max_degree > 0 {
        lemma_first_power_is_one(beta, (max_degree - 1) as nat);
    }
}

/// Computes the powers of `beta` from exponent 0 up to `max_degree` by
/// repeated multiplication.
pub fn powers_of_scalar(beta: &Scalar, max_degree: usize) -> (powers: Vec<Scalar>)
    requires
        max_degree < usize::MAX,
    ensures
        powers@.len() == max_degree + 1,
        scalar_encodings(powers@) == scalar_powers(beta.bytes@, max_degree as nat),
{
    let mut powers: Vec<Scalar> = Vec::new();
    powers.push(Scalar::one());
    let mut i: usize = 0;
    assert(scalar_encodings(powers@) =~= scalar_powers(beta.bytes@, 0));
    while i < max_degree
        invariant
            i <= max_degree,
            powers@.len() == i + 1,
            scalar_encodings(powers@) == scalar_powers(beta.bytes@, i as nat),
        decreases max_degree - i,
    {
        let ghost before = powers@;
        let next = scalar_mul(&powers[i], beta);
        powers.push(next);
        i = i + 1;
        proof {
            let lower = scalar_powers(beta.bytes@, (i - 1) as nat);
            assert(lower.last() == before[i - 1].bytes@);
            assert(scalar_encodings(powers@) =~= lower.push(
                scalar_product(lower.last(), beta.bytes@),
            ));
        }
    }
    powers
}

impl UnivariateUniversalParams {
    /// A parameter set holds at least the generator itself.
    pub open spec fn wf(&self) -> bool {
        self.powers_of_g@.len() >= 1
    }

    /// The largest degree the parameters support.
    pub open spec fn spec_max_degree(&self) -> int {
        self.powers_of_g@.len() - 1
    }

    /// Returns the maximum supported degree.
    pub fn max_degree(&self) -> (d: usize)
        requires
            self.wf(),
        ensures
            d == self.spec_max_degree(),
    {
        self.powers_of_g.len() - 1
    }

    /// Every group element of the set is a valid encoding.
    pub open spec fn points_valid(&self) -> bool {
        &&& all_g1_valid(self.powers_of_g@)
        &&& self.h.valid()
        &&& self.beta_h.valid()
    }

    /// The verifier parameters of this set for a degree bound: the first
    /// power and the two G2 elements, whatever the bound.
    pub open spec fn verifier_param_for(&self, supported_size: usize) -> UnivariateVerifierParam {
        UnivariateVerifierParam { g: self.powers_of_g@[0], h: self.h, beta_h: self.beta_h }
    }

    /// Extracts the prover parameters for polynomials of degree at most
    /// `supported_size`: the first `supported_size + 1` powers, in order.
    /// Fails when the set holds fewer powers than that, so always on a set
    /// without powers.
    pub fn extract_prover_param(&self, supported_size: usize) -> (res: Result<
        UnivariateProverParam,
        SrsError,
    >)
        ensures
            supported_size <= self.spec_max_degree() ==> res is Ok && res->Ok_0.powers_of_g@
                == self.powers_of_g@.subrange(0, supported_size + 1)
                && res->Ok_0.powers_of_g@.len() == supported_size + 1,
            supported_size > self.spec_max_degree() ==> res == Err::<UnivariateProverParam, SrsError>(
                SrsError::SizeOutOfRange,
            ),
    {
        if supported_size >= self.powers_of_g.len() {
            return Err(SrsError::SizeOutOfRange);
        }
        let mut powers_of_g: Vec<G1Point> = Vec::new();
        let mut i: usize = 0;
        while i <= supported_size
            invariant
                supported_size < self.powers_of_g@.len() <= usize::MAX,
                i <= supported_size + 1,
                powers_of_g@ == self.powers_of_g@.subrange(0, i as int),
            decreases supported_size + 1 - i,
        {
            powers_of_g.push(self.powers_of_g[i]);
            i = i + 1;
            assert(powers_of_g@ =~= self.powers_of_g@.subrange(0, i as int));
        }
        Ok(UnivariateProverParam { powers_of_g })
    }

    /// Extracts the verifier parameters. The degree bound has no effect on
    /// the result.
    pub fn extract_verifier_param(&self, supported_size: usize) -> (vp: UnivariateVerifierParam)
        requires
            self.wf(),
        ensures
            vp == self.verifier_param_for(supported_size),
    {
        UnivariateVerifierParam { g: self.powers_of_g[0], h: self.h, beta_h: self.beta_h }
    }

    /// Specialises the parameters to a degree bound: the prover parameters
    /// and the verifier parameters that the two extractions give for it.
    pub fn trim(&self, supported_size: usize) -> (res: Result<
        (UnivariateProverParam, UnivariateVerifierParam),
        SrsError,
    >)
        ensures
            supported_size <= self.spec_max_degree() ==> res is Ok && res->Ok_0.0.powers_of_g@
                == self.powers_of_g@.subrange(0, supported_size + 1) && res->Ok_0.1
                == self.verifier_param_for(supported_size),
            supported_size > self.spec_max_degree() ==> res == Err::<
                (UnivariateProverParam, UnivariateVerifierParam),
                SrsError,
            >(SrsError::SizeOutOfRange),
    {
        match self.extract_prover_param(supported_size) {
            Ok(pk) => Ok((pk, self.extract_verifier_param(supported_size))),
            Err(e) => Err(e),
        }
    }

    /// Whether `self` is the parameter set that the trapdoor `beta` and the
    /// generators `g` and `h` determine for `max_degree`: the multiples of
    /// `g` by the powers of `beta`, of which the first is `g` itself, then
    /// `h` and its multiple by `beta`.
    pub open spec fn derived_from(
        &self,
        beta: Scalar,
        g: G1Point,
        h: G2Point,
        max_degree: usize,
    ) -> bool {
        &&& g1_encodings(self.powers_of_g@) == g1_multiples(
            g.bytes@,
            scalar_powers(beta.bytes@, max_degree as nat),
        )
        &&& self.powers_of_g@.len() == max_degree + 1
        &&& self.powers_of_g@[0] == g
        &&& self.h == h
        &&& self.beta_h.bytes@ == g2_multiple(h.bytes@, beta.bytes@)
        &&& self.points_valid()
    }

    /// Builds the parameters for `max_degree` from a given trapdoor and
    /// generators. Fails when a generator is not a valid encoding. The
    /// caller must discard `beta` afterwards.
    pub fn from_trapdoor(beta: &Scalar, g: &G1Point, h: &G2Point, max_degree: usize) -> (res:
        Result<UnivariateUniversalParams, SrsError>)
        requires
            max_degree < usize::MAX,
        ensures
            g.valid() && h.valid() ==> res is Ok && res->Ok_0.derived_from(
                *beta,
                *g,
                *h,
                max_degree,
            ),
            !(g.valid() && h.valid()) ==> res == Err::<UnivariateUniversalParams, SrsError>(
                SrsError::MalformedParameter,
            ),
    {
        if !g.is_valid() || !h.is_valid() {
            return Err(SrsError::MalformedParameter);
        }
        let powers_of_beta = powers_of_scalar(beta, max_degree);
        assert(scalar_encodings(powers_of_beta@)[0] == Scalar::one_bytes()) by {
            lemma_first_power_is_one(beta.bytes@, max_degree as nat);
        }
        let powers_of_g = g1_batch_mul(g, &powers_of_beta);
        let beta_h = g2_mul(h, beta);
        Ok(UnivariateUniversalParams { powers_of_g, h: *h, beta_h })
    }

    /// Builds parameters for testing from a trapdoor and generators drawn
    /// from `rng`. The trapdoor is known to whoever runs this, so the result
    /// must not be used in production.
    pub fn gen_srs_for_testing(rng: &mut StdRng, max_degree: usize) -> (res: Result<
        UnivariateUniversalParams,
        SrsError,
    >)
        requires
            max_degree < usize::MAX,
        ensures
            res is Ok,
            res->Ok_0.wf(),
            res->Ok_0.spec_max_degree() == max_degree,
            res->Ok_0.powers_of_g@.len() == max_degree + 1,
            res->Ok_0.points_valid(),
            exists|beta: Scalar, g: G1Point|
                res->Ok_0.derived_from(beta, g, res->Ok_0.h, max_degree),
    {
        let beta = sample_scalar(rng);
        let g = sample_g1(rng);
        let h = sample_g2(rng);
        let res = UnivariateUniversalParams::from_trapdoor(&beta, &g, &h, max_degree);
        assert(res->Ok_0.derived_from(beta, g, res->Ok_0.h, max_degree));
        res
    }
}

/// The verifier parameters do not depend on the degree bound they are
/// extracted for.
pub proof fn lemma_verifier_param_degree_independent(
    params: UnivariateUniversalParams,
    s1: usize,
    s2: usize,
)
    ensures
        params.verifier_param_for(s1) == params.verifier_param_for(s2),
{
}

} // verus!
