//! The byte layout of the parameter sets.
//!
//! A sequence of G1 points is written as its length, a little-endian `u64`,
//! followed by the 48-byte compressed encoding of each point. Universal
//! parameters are that sequence followed by `h` and `beta_h`, 96 bytes each;
//! prover parameters are the sequence alone; verifier parameters are `g`,
//! `h` and `beta_h` with no prefix. Decoding accepts exactly the encodings of
//! parameter sets whose points are all valid; universal parameters must also
//! hold at least one power. Anything else is a malformed parameter, and
//! nothing is returned for it.

use crate::curve::{all_g1_valid, G1Point, G2Point};
use crate::error::SrsError;
use crate::srs::{
    UnivariateProverParam, UnivariateUniversalParams, UnivariateVerifierParam, UniversalParamsModel,
};
use vstd::bytes::{
    lemma_auto_spec_u64_to_from_le_bytes, spec_u64_from_le_bytes, spec_u64_to_le_bytes,
    u64_from_le_bytes, u64_to_le_bytes,
};
use vstd::prelude::*;
use vstd::slice::slice_subrange;

verus! {

/// The encodings of the points, one after another.
pub open spec fn g1_concat(points: Seq<G1Point>) -> Seq<u8> {
    Seq::new(points.len() * 48, |k: int| points[k / 48].bytes@[k % 48])
}

/// The length of the sequence as a little-endian `u64`, then the points.
pub open spec fn g1_vec_encoding(points: Seq<G1Point>) -> Seq<u8> {
    spec_u64_to_le_bytes(points.len() as u64) + g1_concat(points)
}

/// `bytes` is the encoding of `points`, and every point is valid.
pub open spec fn g1_vec_decodes_to(bytes: Seq<u8>, points: Seq<G1Point>) -> bool {
    &&& points.len() <= usize::MAX
    &&& g1_vec_encoding(points) == bytes
    &&& all_g1_valid(points)
}

/// The sequence of valid points that `bytes` encodes, if there is one.
pub open spec fn parse_g1_vec(bytes: Seq<u8>) -> Option<Seq<G1Point>> {
    if exists|points: Seq<G1Point>| g1_vec_decodes_to(bytes, points) {
        Some(choose|points: Seq<G1Point>| g1_vec_decodes_to(bytes, points))
    } else {
        None
    }
}

/// The point at position `i` of an encoded sequence occupies the 48 bytes
/// that follow the prefix and the `i` points before it.
pub proof fn lemma_g1_vec_encoding_layout(points: Seq<G1Point>)
    requires
        points.len() <= usize::MAX,
    ensures
        g1_vec_encoding(points).len() == 8 + 48 * points.len(),
        g1_vec_encoding(points).subrange(0, 8) == spec_u64_to_le_bytes(points.len() as u64),
        spec_u64_from_le_bytes(g1_vec_encoding(points).subrange(0, 8)) == points.len(),
        forall|i: int|
            0 <= i < points.len() ==> g1_vec_encoding(points).subrange(8 + 48 * i, 56 + 48 * i)
                == (#[trigger] points[i]).bytes@,
{
    lemma_auto_spec_u64_to_from_le_bytes();
    let enc = g1_vec_encoding(points);
    let prefix = spec_u64_to_le_bytes(points.len() as u64);
    assert(enc.subrange(0, 8) =~= prefix);
    assert forall|i: int| 0 <= i < points.len() implies enc.subrange(8 + 48 * i, 56 + 48 * i) == (
    #[trigger] points[i]).bytes@ by {
        assert forall|j: int| 0 <= j < 48 implies enc.subrange(8 + 48 * i, 56 + 48 * i)[j]
            == points[i].bytes@[j] by {
            let k = 48 * i + j;
            assert(k / 48 == i && k % 48 == j);
            assert(enc[8 + k] == g1_concat(points)[k]);
        }
        assert(enc.subrange(8 + 48 * i, 56 + 48 * i) =~= points[i].bytes@);
    }
}

/// Two sequences of points with the same encoding are the same sequence.
pub proof fn lemma_g1_vec_encoding_injective(a: Seq<G1Point>, b: Seq<G1Point>)
    requires
        a.len() <= usize::MAX,
        b.len() <= usize::MAX,
        g1_vec_encoding(a) == g1_vec_encoding(b),
    ensures
        a == b,
{
    lemma_g1_vec_encoding_layout(a);
    lemma_g1_vec_encoding_layout(b);
    assert(a.len() == b.len());
    assert forall|i: int| 0 <= i < a.len() implies a[i] == b[i] by {
        assert(a[i].bytes@ == g1_vec_encoding(a).subrange(8 + 48 * i, 56 + 48 * i));
        assert(b[i].bytes@ == g1_vec_encoding(b).subrange(8 + 48 * i, 56 + 48 * i));
        assert(a[i].bytes =~= b[i].bytes);
    }
    assert(a =~= b);
}

/// A sequence of valid points is what its encoding parses to, and nothing
/// else is.
pub proof fn lemma_parse_g1_vec_unique(bytes: Seq<u8>, points: Seq<G1Point>)
    ensures
        g1_vec_decodes_to(bytes, points) ==> parse_g1_vec(bytes) == Some(points),
{
    if g1_vec_decodes_to(bytes, points) {
        let found = choose|found: Seq<G1Point>| g1_vec_decodes_to(bytes, found);
        lemma_g1_vec_encoding_injective(found, points);
    }
}

/// Decoding undoes encoding: the encoding of a sequence of valid points
/// parses to that sequence, and the encoding of any other sequence parses to
/// nothing.
pub proof fn lemma_g1_vec_round_trip(points: Seq<G1Point>)
    requires
        points.len() <= usize::MAX,
    ensures
        all_g1_valid(points) ==> parse_g1_vec(g1_vec_encoding(points)) == Some(points),
        !all_g1_valid(points) ==> parse_g1_vec(g1_vec_encoding(points)) is None,
{
    let bytes = g1_vec_encoding(points);
    if all_g1_valid(points) {
        lemma_parse_g1_vec_unique(bytes, points);
    } else {
        assert forall|other: Seq<G1Point>| !g1_vec_decodes_to(bytes, other) by {
            if g1_vec_decodes_to(bytes, other) {
                lemma_g1_vec_encoding_injective(other, points);
            }
        }
    }
}

/// Appends the 48 bytes of a G1 point.
fn write_g1(out: &mut Vec<u8>, p: &G1Point)
    ensures
        final(out)@ == old(out)@ + p.bytes@,
{
    let ghost start = out@;
    let mut j: usize = 0;
    while j < 48
        invariant
            j <= 48,
            out@ == start + p.bytes@.subrange(0, j as int),
        decreases 48 - j,
    {
        out.push(p.bytes[j]);
        j = j + 1;
        assert(out@ =~= start + p.bytes@.subrange(0, j as int));
    }
    assert(p.bytes@.subrange(0, 48) =~= p.bytes@);
}

/// Appends the 96 bytes of a G2 point.
fn write_g2(out: &mut Vec<u8>, p: &G2Point)
    ensures
        final(out)@ == old(out)@ + p.bytes@,
{
    let ghost start = out@;
    let mut j: usize = 0;
    while j < 96
        invariant
            j <= 96,
            out@ == start + p.bytes@.subrange(0, j as int),
        decreases 96 - j,
    {
        out.push(p.bytes[j]);
        j = j + 1;
        assert(out@ =~= start + p.bytes@.subrange(0, j as int));
    }
    assert(p.bytes@.subrange(0, 96) =~= p.bytes@);
}

/// Reads the 48 bytes at `offset` as a G1 point, without checking them.
fn read_g1(bytes: &[u8], offset: usize) -> (p: G1Point)
    requires
        offset + 48 <= bytes@.len(),
    ensures
        p.bytes@ == bytes@.subrange(offset as int, offset + 48),
{
    let len = bytes.len();
    let mut buf = [0u8; 48];
    let mut j: usize = 0;
    while j < 48
        invariant
            j <= 48,
            offset + 48 <= len,
            len == bytes@.len(),
            forall|k: int| 0 <= k < j ==> buf@[k] == bytes@[offset + k],
        decreases 48 - j,
    {
        buf[j] = bytes[offset + j];
        j = j + 1;
    }
    assert(buf@ =~= bytes@.subrange(offset as int, offset + 48));
    G1Point { bytes: buf }
}

/// Reads the 96 bytes at `offset` as a G2 point, without checking them.
fn read_g2(bytes: &[u8], offset: usize) -> (p: G2Point)
    requires
        offset + 96 <= bytes@.len(),
    ensures
        p.bytes@ == bytes@.subrange(offset as int, offset + 96),
{
    let len = bytes.len();
    let mut buf = [0u8; 96];
    let mut j: usize = 0;
    while j < 96
        invariant
            j <= 96,
            offset + 96 <= len,
            len == bytes@.len(),
            forall|k: int| 0 <= k < j ==> buf@[k] == bytes@[offset + k],
        decreases 96 - j,
    {
        buf[j] = bytes[offset + j];
        j = j + 1;
    }
    assert(buf@ =~= bytes@.subrange(offset as int, offset + 96));
    G2Point { bytes: buf }
}

/// Encodes a sequence of G1 points with its length in front.
pub fn encode_g1_vec(points: &Vec<G1Point>) -> (out: Vec<u8>)
    ensures
        out@ == g1_vec_encoding(points@),
{
    let n = points.len();
    let mut out = u64_to_le_bytes(n as u64);
    let ghost prefix = out@;
    let mut i: usize = 0;
    assert(out@ =~= prefix + g1_concat(points@.subrange(0, 0)));
    while i < n
        invariant
            i <= n,
            n == points@.len(),
            prefix == spec_u64_to_le_bytes(n as u64),
            out@ == prefix + g1_concat(points@.subrange(0, i as int)),
        decreases n - i,
    {
        write_g1(&mut out, &points[i]);
        proof {
            let before = points@.subrange(0, i as int);
            let after = points@.subrange(0, i + 1);
            assert forall|k: int| 0 <= k < after.len() * 48 implies g1_concat(after)[k] == (
            g1_concat(before) + points@[i as int].bytes@)[k] by {
                if k < before.len() * 48 {
                    assert(k / 48 < i);
                } else {
                    assert(k / 48 == i && k % 48 == k - 48 * i);
                }
            }
            assert(g1_concat(after) =~= g1_concat(before) + points@[i as int].bytes@);
            assert(out@ =~= prefix + g1_concat(after));
        }
        i = i + 1;
    }
    assert(points@.subrange(0, n as int) =~= points@);
    out
}

/// Decodes a sequence of G1 points and checks each of them. Gives `None`
/// unless `bytes` is the encoding of a sequence of valid points.
pub fn decode_g1_vec(bytes: &[u8]) -> (res: Option<Vec<G1Point>>)
    ensures
        res matches Some(points) ==> parse_g1_vec(bytes@) == Some(points@) && g1_vec_encoding(
            points@,
        ) == bytes@ && all_g1_valid(points@),
        res is None ==> parse_g1_vec(bytes@) is None,
{
    let len = bytes.len();
    if len < 8 {
        proof {
            assert forall|other: Seq<G1Point>| !g1_vec_decodes_to(bytes@, other) by {
                if other.len() <= usize::MAX {
                    lemma_g1_vec_encoding_layout(other);
                }
            }
        }
        return None;
    }
    let declared = u64_from_le_bytes(slice_subrange(bytes, 0, 8));
    let body = len - 8;
    let n = body / 48;
    if body % 48 != 0 || n as u64 != declared {
        proof {
            assert forall|other: Seq<G1Point>| !g1_vec_decodes_to(bytes@, other) by {
                if other.len() <= usize::MAX {
                    lemma_g1_vec_encoding_layout(other);
                }
            }
        }
        return None;
    }
    let mut points: Vec<G1Point> = Vec::new();
    let mut i: usize = 0;
    while i < n
        invariant
            i <= n,
            len == bytes@.len(),
            len == 8 + 48 * n,
            points@.len() == i,
            all_g1_valid(points@),
            forall|k: int|
                0 <= k < i ==> (#[trigger] points@[k]).bytes@ == bytes@.subrange(
                    8 + 48 * k,
                    56 + 48 * k,
                ),
        decreases n - i,
    {
        let p = read_g1(bytes, 8 + 48 * i);
        if !p.is_valid() {
            proof {
                assert forall|other: Seq<G1Point>| !g1_vec_decodes_to(bytes@, other) by {
                    if other.len() <= usize::MAX && g1_vec_encoding(other) == bytes@ {
                        lemma_g1_vec_encoding_layout(other);
                        assert(other[i as int].bytes@ == p.bytes@);
                    }
                }
            }
            return None;
        }
        points.push(p);
        i = i + 1;
    }
    proof {
        lemma_auto_spec_u64_to_from_le_bytes();
        let enc = g1_vec_encoding(points@);
        assert(spec_u64_to_le_bytes(n as u64) == bytes@.subrange(0, 8));
        assert forall|k: int| 0 <= k < 48 * n implies g1_concat(points@)[k] == bytes@[8 + k] by {
            let idx = k / 48;
            assert(points@[idx].bytes@ == bytes@.subrange(8 + 48 * idx, 56 + 48 * idx));
            assert(points@[idx].bytes@[k % 48] == bytes@.subrange(8 + 48 * idx, 56 + 48 * idx)[k
                % 48]);
        }
        assert forall|k: int| 0 <= k < 8 implies enc[k] == bytes@[k] by {
            assert(bytes@.subrange(0, 8)[k] == bytes@[k]);
        }
        assert(enc =~= bytes@);
        lemma_parse_g1_vec_unique(bytes@, points@);
    }
    Some(points)
}

/// The encoded powers, then `h`, then `beta_h`.
pub open spec fn universal_encoding(m: UniversalParamsModel) -> Seq<u8> {
    g1_vec_encoding(m.powers_of_g) + m.h.bytes@ + m.beta_h.bytes@
}

/// `bytes` is the encoding of `m`, which holds at least one power and only
/// valid points.
pub open spec fn universal_decodes_to(bytes: Seq<u8>, m: UniversalParamsModel) -> bool {
    &&& 1 <= m.powers_of_g.len() <= usize::MAX
    &&& universal_encoding(m) == bytes
    &&& all_g1_valid(m.powers_of_g)
    &&& m.h.valid()
    &&& m.beta_h.valid()
}

/// The universal parameters that `bytes` encodes, if there are any.
pub open spec fn parse_universal(bytes: Seq<u8>) -> Option<UniversalParamsModel> {
    if exists|m: UniversalParamsModel| universal_decodes_to(bytes, m) {
        Some(choose|m: UniversalParamsModel| universal_decodes_to(bytes, m))
    } else {
        None
    }
}

/// `g`, then `h`, then `beta_h`.
pub open spec fn verifier_encoding(vp: UnivariateVerifierParam) -> Seq<u8> {
    vp.g.bytes@ + vp.h.bytes@ + vp.beta_h.bytes@
}

/// `bytes` is the encoding of `vp`, whose three points are valid.
pub open spec fn verifier_decodes_to(bytes: Seq<u8>, vp: UnivariateVerifierParam) -> bool {
    &&& verifier_encoding(vp) == bytes
    &&& vp.g.valid()
    &&& vp.h.valid()
    &&& vp.beta_h.valid()
}

/// The verifier parameters that `bytes` encodes, if there are any.
pub open spec fn parse_verifier(bytes: Seq<u8>) -> Option<UnivariateVerifierParam> {
    if exists|vp: UnivariateVerifierParam| verifier_decodes_to(bytes, vp) {
        Some(choose|vp: UnivariateVerifierParam| verifier_decodes_to(bytes, vp))
    } else {
        None
    }
}

/// Where the three parts of encoded universal parameters lie.
pub proof fn lemma_universal_encoding_layout(m: UniversalParamsModel)
    requires
        m.powers_of_g.len() <= usize::MAX,
    ensures
        universal_encoding(m).len() == 200 + 48 * m.powers_of_g.len(),
        universal_encoding(m).subrange(0, 8 + 48 * (m.powers_of_g.len() as int)) == g1_vec_encoding(
            m.powers_of_g,
        ),
        universal_encoding(m).subrange(
            8 + 48 * (m.powers_of_g.len() as int),
            104 + 48 * (m.powers_of_g.len() as int),
        ) == m.h.bytes@,
        universal_encoding(m).subrange(
            104 + 48 * (m.powers_of_g.len() as int),
            200 + 48 * (m.powers_of_g.len() as int),
        ) == m.beta_h.bytes@,
{
    lemma_g1_vec_encoding_layout(m.powers_of_g);
    let enc = universal_encoding(m);
    let n = m.powers_of_g.len() as int;
    assert(enc.subrange(0, 8 + 48 * n) =~= g1_vec_encoding(m.powers_of_g));
    assert(enc.subrange(8 + 48 * n, 104 + 48 * n) =~= m.h.bytes@);
    assert(enc.subrange(104 + 48 * n, 200 + 48 * n) =~= m.beta_h.bytes@);
}

/// Two universal parameter sets with the same encoding are the same.
pub proof fn lemma_universal_encoding_injective(a: UniversalParamsModel, b: UniversalParamsModel)
    requires
        a.powers_of_g.len() <= usize::MAX,
        b.powers_of_g.len() <= usize::MAX,
        universal_encoding(a) == universal_encoding(b),
    ensures
        a == b,
{
    lemma_universal_encoding_layout(a);
    lemma_universal_encoding_layout(b);
    assert(a.powers_of_g.len() == b.powers_of_g.len());
    lemma_g1_vec_encoding_injective(a.powers_of_g, b.powers_of_g);
    assert(a.h.bytes =~= b.h.bytes);
    assert(a.beta_h.bytes =~= b.beta_h.bytes);
}

/// Where the three points of encoded verifier parameters lie.
pub proof fn lemma_verifier_encoding_layout(vp: UnivariateVerifierParam)
    ensures
        verifier_encoding(vp).len() == 240,
        verifier_encoding(vp).subrange(0, 48) == vp.g.bytes@,
        verifier_encoding(vp).subrange(48, 144) == vp.h.bytes@,
        verifier_encoding(vp).subrange(144, 240) == vp.beta_h.bytes@,
{
    let enc = verifier_encoding(vp);
    assert(enc.subrange(0, 48) =~= vp.g.bytes@);
    assert(enc.subrange(48, 144) =~= vp.h.bytes@);
    assert(enc.subrange(144, 240) =~= vp.beta_h.bytes@);
}

/// Two verifier parameter sets with the same encoding are the same.
pub proof fn lemma_verifier_encoding_injective(
    a: UnivariateVerifierParam,
    b: UnivariateVerifierParam,
)
    requires
        verifier_encoding(a) == verifier_encoding(b),
    ensures
        a == b,
{
    lemma_verifier_encoding_layout(a);
    lemma_verifier_encoding_layout(b);
    assert(a.g.bytes =~= b.g.bytes);
    assert(a.h.bytes =~= b.h.bytes);
    assert(a.beta_h.bytes =~= b.beta_h.bytes);
}

/// A valid universal parameter set is what its encoding parses to.
pub proof fn lemma_parse_universal_unique(bytes: Seq<u8>, m: UniversalParamsModel)
    ensures
        universal_decodes_to(bytes, m) ==> parse_universal(bytes) == Some(m),
{
    if universal_decodes_to(bytes, m) {
        let found = choose|found: UniversalParamsModel| universal_decodes_to(bytes, found);
        lemma_universal_encoding_injective(found, m);
    }
}

/// A valid verifier parameter set is what its encoding parses to.
pub proof fn lemma_parse_verifier_unique(bytes: Seq<u8>, vp: UnivariateVerifierParam)
    ensures
        verifier_decodes_to(bytes, vp) ==> parse_verifier(bytes) == Some(vp),
{
    if verifier_decodes_to(bytes, vp) {
        let found = choose|found: UnivariateVerifierParam| verifier_decodes_to(bytes, found);
        lemma_verifier_encoding_injective(found, vp);
    }
}

/// The parts of an encoding that decodes to universal parameters: the
/// encoded powers, then `h`, then `beta_h`.
proof fn lemma_universal_parts(bytes: Seq<u8>, m: UniversalParamsModel)
    requires
        universal_decodes_to(bytes, m),
    ensures
        bytes.len() == 200 + 48 * m.powers_of_g.len(),
        g1_vec_decodes_to(bytes.subrange(0, bytes.len() - 192), m.powers_of_g),
        bytes.subrange(bytes.len() - 192, bytes.len() - 96) == m.h.bytes@,
        bytes.subrange(bytes.len() - 96, bytes.len() as int) == m.beta_h.bytes@,
{
    lemma_universal_encoding_layout(m);
}

/// Decoding undoes encoding for universal parameters: the encoding of a set
/// with at least one power and only valid points parses to that set, and the
/// encoding of any other set parses to nothing.
pub proof fn lemma_universal_round_trip(pp: UnivariateUniversalParams)
    ensures
        pp.wf() && pp.points_valid() ==> parse_universal(pp.encoding()) == Some(pp@),
        !(pp.wf() && pp.points_valid()) ==> parse_universal(pp.encoding()) is None,
{
    let m = pp@;
    assert(pp.powers_of_g@.len() == pp.powers_of_g.len());
    let bytes = universal_encoding(m);
    if universal_decodes_to(bytes, m) {
        lemma_parse_universal_unique(bytes, m);
    } else {
        assert forall|other: UniversalParamsModel| !universal_decodes_to(bytes, other) by {
            if universal_decodes_to(bytes, other) {
                lemma_universal_encoding_injective(other, m);
            }
        }
    }
}

/// Decoding undoes encoding for prover parameters: the encoding of valid
/// points parses to them, and the encoding of anything else to nothing.
pub proof fn lemma_prover_round_trip(pk: UnivariateProverParam)
    ensures
        all_g1_valid(pk.powers_of_g@) ==> parse_g1_vec(pk.encoding()) == Some(pk.powers_of_g@),
        !all_g1_valid(pk.powers_of_g@) ==> parse_g1_vec(pk.encoding()) is None,
{
    assert(pk.powers_of_g@.len() == pk.powers_of_g.len());
    lemma_g1_vec_round_trip(pk.powers_of_g@);
}

/// Decoding undoes encoding for verifier parameters: the encoding of three
/// valid points parses to them, and any other encoding to nothing.
pub proof fn lemma_verifier_round_trip(vp: UnivariateVerifierParam)
    ensures
        vp.valid() ==> parse_verifier(vp.encoding()) == Some(vp),
        !vp.valid() ==> parse_verifier(vp.encoding()) is None,
{
    let bytes = verifier_encoding(vp);
    if verifier_decodes_to(bytes, vp) {
        lemma_parse_verifier_unique(bytes, vp);
    } else {
        assert forall|other: UnivariateVerifierParam| !verifier_decodes_to(bytes, other) by {
            if verifier_decodes_to(bytes, other) {
                lemma_verifier_encoding_injective(other, vp);
            }
        }
    }
}

impl UnivariateProverParam {
    /// The bytes that `serialize` writes.
    pub open spec fn encoding(&self) -> Seq<u8> {
        g1_vec_encoding(self.powers_of_g@)
    }

    /// Encodes the parameters.
    pub fn serialize(&self) -> (out: Vec<u8>)
        ensures
            out@ == self.encoding(),
    {
        encode_g1_vec(&self.powers_of_g)
    }

    /// Decodes prover parameters. Succeeds exactly on the encodings of
    /// sequences of valid points.
    pub fn deserialize(bytes: &[u8]) -> (res: Result<UnivariateProverParam, SrsError>)
        ensures
            res matches Ok(pk) ==> parse_g1_vec(bytes@) == Some(pk.powers_of_g@) && pk.encoding()
                == bytes@ && all_g1_valid(pk.powers_of_g@),
            res matches Err(e) ==> e == SrsError::MalformedParameter && parse_g1_vec(bytes@)
                is None,
    {
        match decode_g1_vec(bytes) {
            Some(powers_of_g) => Ok(UnivariateProverParam { powers_of_g }),
            None => Err(SrsError::MalformedParameter),
        }
    }
}

impl UnivariateVerifierParam {
    /// The three points are valid.
    pub open spec fn valid(&self) -> bool {
        self.g.valid() && self.h.valid() && self.beta_h.valid()
    }

    /// The bytes that `serialize` writes.
    pub open spec fn encoding(&self) -> Seq<u8> {
        verifier_encoding(*self)
    }

    /// Encodes the parameters.
    pub fn serialize(&self) -> (out: Vec<u8>)
        ensures
            out@ == self.encoding(),
    {
        let mut out: Vec<u8> = Vec::new();
        write_g1(&mut out, &self.g);
        write_g2(&mut out, &self.h);
        write_g2(&mut out, &self.beta_h);
        assert(out@ =~= self.encoding());
        out
    }

    /// Decodes verifier parameters. Succeeds exactly on the 240-byte
    /// encodings of three valid points.
    pub fn deserialize(bytes: &[u8]) -> (res: Result<UnivariateVerifierParam, SrsError>)
        ensures
            res matches Ok(vp) ==> parse_verifier(bytes@) == Some(vp) && vp.encoding() == bytes@
                && vp.valid(),
            res matches Err(e) ==> e == SrsError::MalformedParameter && parse_verifier(bytes@)
                is None,
    {
        if bytes.len() != 240 {
            proof {
                assert forall|other: UnivariateVerifierParam|
                    !verifier_decodes_to(bytes@, other) by {
                    lemma_verifier_encoding_layout(other);
                }
            }
            return Err(SrsError::MalformedParameter);
        }
        let g = read_g1(bytes, 0);
        let h = read_g2(bytes, 48);
        let beta_h = read_g2(bytes, 144);
        let vp = UnivariateVerifierParam { g, h, beta_h };
        if !g.is_valid() || !h.is_valid() || !beta_h.is_valid() {
            proof {
                assert forall|other: UnivariateVerifierParam|
                    !verifier_decodes_to(bytes@, other) by {
                    lemma_verifier_encoding_layout(other);
                }
            }
            return Err(SrsError::MalformedParameter);
        }
        proof {
            assert(verifier_encoding(vp) =~= bytes@);
            lemma_parse_verifier_unique(bytes@, vp);
        }
        Ok(vp)
    }
}

impl UnivariateUniversalParams {
    /// The bytes that `serialize` writes.
    pub open spec fn encoding(&self) -> Seq<u8> {
        universal_encoding(self@)
    }

    /// Encodes the parameters.
    pub fn serialize(&self) -> (out: Vec<u8>)
        ensures
            out@ == self.encoding(),
    {
        let mut out = encode_g1_vec(&self.powers_of_g);
        write_g2(&mut out, &self.h);
        write_g2(&mut out, &self.beta_h);
        out
    }

    /// Decodes universal parameters. Succeeds exactly on the encodings of
    /// sets that hold at least one power and only valid points.
    pub fn deserialize(bytes: &[u8]) -> (res: Result<UnivariateUniversalParams, SrsError>)
        ensures
            res matches Ok(pp) ==> parse_universal(bytes@) == Some(pp@) && pp.encoding() == bytes@
                && pp.wf() && pp.points_valid(),
            res matches Err(e) ==> e == SrsError::MalformedParameter && parse_universal(bytes@)
                is None,
    {
        let len = bytes.len();
        if len < 200 {
            proof {
                assert forall|other: UniversalParamsModel|
                    !universal_decodes_to(bytes@, other) by {
                    if other.powers_of_g.len() <= usize::MAX {
                        lemma_universal_encoding_layout(other);
                    }
                }
            }
            return Err(SrsError::MalformedParameter);
        }
        let head = slice_subrange(bytes, 0, len - 192);
        let decoded = decode_g1_vec(head);
        let h = read_g2(bytes, len - 192);
        let beta_h = read_g2(bytes, len - 96);
        match decoded {
            None => {
                proof {
                    assert forall|other: UniversalParamsModel|
                        !universal_decodes_to(bytes@, other) by {
                        if universal_decodes_to(bytes@, other) {
                            lemma_universal_parts(bytes@, other);
                            lemma_parse_g1_vec_unique(head@, other.powers_of_g);
                        }
                    }
                }
                Err(SrsError::MalformedParameter)
            },
            Some(powers_of_g) => {
                if powers_of_g.len() == 0 || !h.is_valid() || !beta_h.is_valid() {
                    proof {
                        assert forall|other: UniversalParamsModel|
                            !universal_decodes_to(bytes@, other) by {
                            if universal_decodes_to(bytes@, other) {
                                lemma_universal_parts(bytes@, other);
                                lemma_parse_g1_vec_unique(head@, other.powers_of_g);
                            }
                        }
                    }
                    return Err(SrsError::MalformedParameter);
                }
                let pp = UnivariateUniversalParams { powers_of_g, h, beta_h };
                proof {
                    lemma_g1_vec_encoding_layout(pp@.powers_of_g);
                    assert(g1_vec_encoding(pp@.powers_of_g) == head@);
                    assert(universal_encoding(pp@) =~= bytes@);
                    lemma_parse_universal_unique(bytes@, pp@);
                }
                Ok(pp)
            },
        }
    }
}

} // verus!
