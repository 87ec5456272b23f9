use ark_bls12_381::{Bls12_381, Fr, G1Affine, G1Projective, G2Affine};
use ark_ec::pairing::Pairing;
use ark_ec::{AffineRepr, CurveGroup};
use ark_serialize::{CanonicalDeserialize, CanonicalSerialize};
use ark_std::rand::rngs::StdRng;
use ark_std::rand::SeedableRng;
use ark_std::UniformRand;
use kzg_srs::curve::{G1Point, G2Point, Scalar};
use kzg_srs::error::SrsError;
use kzg_srs::srs::{
    powers_of_scalar, UnivariateProverParam, UnivariateUniversalParams, UnivariateVerifierParam,
};

fn rng(seed: u64) -> StdRng {
    StdRng::seed_from_u64(seed)
}

fn small_scalar(value: u8) -> Scalar {
    let mut bytes = [0u8; 32];
    bytes[0] = value;
    Scalar { bytes }
}

fn g1_point(p: G1Affine) -> G1Point {
    let mut bytes = [0u8; 48];
    p.serialize_compressed(&mut bytes[..]).unwrap();
    G1Point { bytes }
}

fn g2_point(p: G2Affine) -> G2Point {
    let mut bytes = [0u8; 96];
    p.serialize_compressed(&mut bytes[..]).unwrap();
    G2Point { bytes }
}

fn generate(seed: u64, max_degree: usize) -> UnivariateUniversalParams {
    UnivariateUniversalParams::gen_srs_for_testing(&mut rng(seed), max_degree).unwrap()
}

#[test]
fn generated_length_matches_degree() {
    for d in [0usize, 1, 2, 5, 33] {
        let pp = generate(7, d);
        assert_eq!(pp.powers_of_g.len(), d + 1);
        assert_eq!(pp.max_degree(), d);
    }
}

#[test]
fn generate_degree_zero_then_trim_zero() {
    let pp = generate(1, 0);
    assert_eq!(pp.powers_of_g.len(), 1);
    let g = pp.powers_of_g[0];
    assert!(g.is_valid());
    let (pk, vk) = pp.trim(0).unwrap();
    assert_eq!(pk.powers_of_g, vec![g]);
    assert_eq!(vk, UnivariateVerifierParam { g, h: pp.h, beta_h: pp.beta_h });
}

#[test]
fn first_power_is_the_sampled_generator() {
    let mut r = rng(1);
    let _beta = Fr::rand(&mut r);
    let g = G1Projective::rand(&mut r).into_affine();
    let pp = generate(1, 0);
    assert_eq!(pp.powers_of_g[0], g1_point(g));
}

#[test]
fn extract_prover_param_is_prefix() {
    let pp = generate(2, 4);
    assert_eq!(pp.powers_of_g.len(), 5);
    let pk = pp.extract_prover_param(2).unwrap();
    assert_eq!(pk.powers_of_g.len(), 3);
    assert_eq!(pk.powers_of_g, pp.powers_of_g[..3].to_vec());
    let full = pp.extract_prover_param(4).unwrap();
    assert_eq!(full.powers_of_g, pp.powers_of_g);
}

#[test]
fn extract_prover_param_out_of_range() {
    let pp = generate(3, 4);
    assert_eq!(pp.extract_prover_param(5), Err(SrsError::SizeOutOfRange));
    assert_eq!(pp.extract_prover_param(usize::MAX), Err(SrsError::SizeOutOfRange));
    assert!(pp.extract_prover_param(4).is_ok());
}

#[test]
fn trim_out_of_range() {
    let pp = generate(3, 4);
    assert_eq!(pp.trim(5), Err(SrsError::SizeOutOfRange));
    assert_eq!(pp.trim(100), Err(SrsError::SizeOutOfRange));
}

#[test]
fn trim_equals_both_extractions() {
    let pp = generate(4, 6);
    for s in 0..=6usize {
        let (pk, vk) = pp.trim(s).unwrap();
        assert_eq!(pk, pp.extract_prover_param(s).unwrap());
        assert_eq!(vk, pp.extract_verifier_param(s));
        assert_eq!(pk.powers_of_g.len(), s + 1);
    }
}

#[test]
fn verifier_param_is_degree_independent() {
    let pp = generate(5, 4);
    let expected = UnivariateVerifierParam { g: pp.powers_of_g[0], h: pp.h, beta_h: pp.beta_h };
    for s in 0..=4usize {
        assert_eq!(pp.extract_verifier_param(s), expected);
    }
    assert_eq!(pp.extract_verifier_param(1000), expected);
}

#[test]
fn scalar_one_bytes() {
    let mut expected = [0u8; 32];
    expected[0] = 1;
    assert_eq!(Scalar::one().bytes, expected);
    let mut encoded = [0u8; 32];
    Fr::from(1u64).serialize_compressed(&mut encoded[..]).unwrap();
    assert_eq!(Scalar::one().bytes, encoded);
}

#[test]
fn powers_of_three() {
    let powers = powers_of_scalar(&small_scalar(3), 4);
    let expected: Vec<Scalar> = [1u8, 3, 9, 27, 81].iter().map(|v| small_scalar(*v)).collect();
    assert_eq!(powers, expected);
}

#[test]
fn powers_of_scalar_degree_zero() {
    assert_eq!(powers_of_scalar(&small_scalar(9), 0), vec![small_scalar(1)]);
}

#[test]
fn powers_wrap_around_the_group_order() {
    // 2^255 exceeds the group order, so the 255th power of two is reduced.
    let powers = powers_of_scalar(&small_scalar(2), 255);
    assert_eq!(powers.len(), 256);
    let mut two_to_254 = [0u8; 32];
    two_to_254[31] = 0x40;
    assert_eq!(powers[254].bytes, two_to_254);
    let expected = Fr::from(2u64) * Fr::deserialize_compressed(&two_to_254[..]).unwrap();
    let mut bytes = [0u8; 32];
    expected.serialize_compressed(&mut bytes[..]).unwrap();
    assert_eq!(powers[255].bytes, bytes);
    assert_ne!(powers[255].bytes[31], 0x80);
}

#[test]
fn from_trapdoor_matches_direct_multiplication() {
    let g = G1Affine::generator();
    let h = G2Affine::generator();
    let pp = UnivariateUniversalParams::from_trapdoor(
        &small_scalar(2),
        &g1_point(g),
        &g2_point(h),
        3,
    )
    .unwrap();
    let expected: Vec<G1Point> = [1u64, 2, 4, 8]
        .iter()
        .map(|k| g1_point((g * Fr::from(*k)).into_affine()))
        .collect();
    assert_eq!(pp.powers_of_g, expected);
    assert_eq!(pp.h, g2_point(h));
    assert_eq!(pp.beta_h, g2_point((h * Fr::from(2u64)).into_affine()));
    assert_ne!(pp.beta_h, pp.h);
    assert_ne!(pp.powers_of_g[1], pp.powers_of_g[0]);
    assert_eq!(pp.max_degree(), 3);
}

#[test]
fn from_trapdoor_rejects_invalid_generators() {
    let g = g1_point(G1Affine::generator());
    let h = g2_point(G2Affine::generator());
    let bad_g = G1Point { bytes: [0u8; 48] };
    let bad_h = G2Point { bytes: [0xffu8; 96] };
    let beta = small_scalar(5);
    assert_eq!(
        UnivariateUniversalParams::from_trapdoor(&beta, &bad_g, &h, 2),
        Err(SrsError::MalformedParameter)
    );
    assert_eq!(
        UnivariateUniversalParams::from_trapdoor(&beta, &g, &bad_h, 2),
        Err(SrsError::MalformedParameter)
    );
    assert!(UnivariateUniversalParams::from_trapdoor(&beta, &g, &h, 2).is_ok());
}

#[test]
fn point_validity() {
    assert!(g1_point(G1Affine::generator()).is_valid());
    assert!(g2_point(G2Affine::generator()).is_valid());
    assert!(g1_point(G1Affine::zero()).is_valid());
    assert!(!G1Point { bytes: [0u8; 48] }.is_valid());
    assert!(!G2Point { bytes: [0u8; 96] }.is_valid());
    assert!(!G1Point { bytes: [0xffu8; 48] }.is_valid());
}

#[test]
fn generated_points_are_valid_and_consistent() {
    let pp = generate(11, 3);
    for p in pp.powers_of_g.iter() {
        assert!(p.is_valid());
    }
    assert!(pp.h.is_valid());
    assert!(pp.beta_h.is_valid());
    // e(g^beta, h) == e(g, h^beta)
    let g = G1Affine::deserialize_compressed(&pp.powers_of_g[0].bytes[..]).unwrap();
    let g_beta = G1Affine::deserialize_compressed(&pp.powers_of_g[1].bytes[..]).unwrap();
    let h = G2Affine::deserialize_compressed(&pp.h.bytes[..]).unwrap();
    let beta_h = G2Affine::deserialize_compressed(&pp.beta_h.bytes[..]).unwrap();
    assert_eq!(
        Bls12_381::pairing(g_beta, h),
        Bls12_381::pairing(g, beta_h)
    );
}

#[test]
fn generation_is_reproducible_from_the_seed() {
    assert_eq!(generate(42, 3), generate(42, 3));
    assert_ne!(generate(42, 3), generate(43, 3));
}

#[test]
fn error_messages() {
    assert_eq!(SrsError::SizeOutOfRange.message(), "supported size exceeds the maximum degree");
    assert_eq!(SrsError::MalformedParameter.message(), "malformed parameter encoding");
}

#[test]
fn prover_param_owns_its_data() {
    let pp = generate(8, 2);
    let pk: UnivariateProverParam = pp.extract_prover_param(1).unwrap();
    let copy = pp.powers_of_g[..2].to_vec();
    drop(pp);
    assert_eq!(pk.powers_of_g, copy);
}

#[test]
fn extraction_from_a_set_without_powers_fails() {
    let h = g2_point(G2Affine::generator());
    let pp = UnivariateUniversalParams { powers_of_g: Vec::new(), h, beta_h: h };
    assert_eq!(pp.extract_prover_param(0), Err(SrsError::SizeOutOfRange));
    assert_eq!(pp.trim(0), Err(SrsError::SizeOutOfRange));
}

#[test]
fn first_power_is_the_given_generator() {
    let h = g2_point(G2Affine::generator());
    let mut r = rng(99);
    let mut generators = vec![g1_point(G1Affine::generator()), g1_point(G1Affine::zero())];
    for _ in 0..4 {
        generators.push(g1_point(G1Projective::rand(&mut r).into_affine()));
    }
    for g in generators {
        for beta in [0u8, 1, 7] {
            let pp = UnivariateUniversalParams::from_trapdoor(&small_scalar(beta), &g, &h, 2)
                .unwrap();
            assert_eq!(pp.powers_of_g[0], g);
            assert_eq!(pp.extract_verifier_param(2).g, g);
        }
    }
}
