//! Loaded private keys, their public-key order, and the per-session identity snapshot.

use vstd::prelude::*;
use ssh_key::public::{EcdsaPublicKey, KeyData};
use ssh_key::{Algorithm, PrivateKey};
use ssh_key::private::{Ed25519Keypair, KeypairData};
use crate::agent::ed25519_signature;
use crate::order::{Cmp3, OrderKey, compare_keys, fields_lt, lemma_fields_lt_asymmetric, lemma_fields_lt_irreflexive, lemma_fields_lt_total, lemma_fields_lt_transitive};

verus! {

#[verifier::external_type_specification]
#[verifier::external_body]
pub struct ExPrivateKey(ssh_key::PrivateKey);

#[verifier::external_type_specification]
#[verifier::external_body]
pub struct ExKeyData(ssh_key::public::KeyData);

#[verifier::external_type_specification]
#[verifier::external_body]
pub struct ExEcdsaPublicKey(ssh_key::public::EcdsaPublicKey);

/// `PrivateKey::clone` gives back an equal key.
pub assume_specification[ <ssh_key::PrivateKey as Clone>::clone ](k: &PrivateKey) -> (r: PrivateKey)
    ensures
        r == *k,
;

/// `KeyData::clone` gives back an equal value.
pub assume_specification[ <ssh_key::public::KeyData as Clone>::clone ](k: &KeyData) -> (r: KeyData)
    ensures
        r == *k,
;

/// Elliptic curve of an ECDSA public key, in the order the key type declares its curves.
#[derive(Clone, Copy, Debug, PartialEq, Eq, Structural)]
pub enum EcdsaCurveKind {
    NistP256,
    NistP384,
    NistP521,
}

/// The fields of a public key, as plain bytes, with the variant it belongs to.
///
/// Variants stand in the order in which `ssh_key::public::KeyData` declares them; each carries
/// the fields that the derived order of `KeyData` compares, in declaration order.
#[derive(Clone, Debug)]
pub enum KeyParts {
    Dsa { p: Vec<u8>, q: Vec<u8>, g: Vec<u8>, y: Vec<u8> },
    Ecdsa { curve: EcdsaCurveKind, point: Vec<u8> },
    Ed25519 { key: Vec<u8> },
    Rsa { e: Vec<u8>, n: Vec<u8> },
    SkEcdsaSha2NistP256 { point: Vec<u8>, application: Vec<u8> },
    SkEd25519 { key: Vec<u8>, application: Vec<u8> },
    Other { algorithm: Vec<u8>, key: Vec<u8> },
}

/// Position of a curve among the ECDSA curves.
pub open spec fn curve_rank(c: EcdsaCurveKind) -> u8 {
    match c {
        EcdsaCurveKind::NistP256 => 0,
        EcdsaCurveKind::NistP384 => 1,
        EcdsaCurveKind::NistP521 => 2,
    }
}

/// The field list by which public keys are ordered: the variant's position, then its fields.
pub open spec fn parts_order(p: KeyParts) -> Seq<Seq<u8>> {
    match p {
        KeyParts::Dsa { p, q, g, y } => seq![seq![0u8], p@, q@, g@, y@],
        KeyParts::Ecdsa { curve, point } => seq![seq![1u8], seq![curve_rank(curve)], point@],
        KeyParts::Ed25519 { key } => seq![seq![2u8], key@],
        KeyParts::Rsa { e, n } => seq![seq![3u8], e@, n@],
        KeyParts::SkEcdsaSha2NistP256 { point, application } => seq![
            seq![4u8],
            point@,
            application@,
        ],
        KeyParts::SkEd25519 { key, application } => seq![seq![5u8], key@, application@],
        KeyParts::Other { algorithm, key } => seq![seq![6u8], algorithm@, key@],
    }
}

fn copy_bytes(v: &Vec<u8>) -> (r: Vec<u8>)
    ensures
        r@ == v@,
{
    let mut r: Vec<u8> = Vec::new();
    let mut i: usize = 0;
    while i < v.len()
        invariant
            i <= v@.len(),
            r@ == v@.take(i as int),
        decreases v@.len() - i,
    {
        r.push(v[i]);
        assert(v@.take(i + 1) =~= v@.take(i as int).push(v@[i as int]));
        i = i + 1;
    }
    assert(v@.take(v@.len() as int) =~= v@);
    r
}

fn single(b: u8) -> (r: Vec<u8>)
    ensures
        r@ == seq![b],
{
    let mut r: Vec<u8> = Vec::new();
    r.push(b);
    assert(r@ =~= seq![b]);
    r
}

/// Builds the order key of a public key from its fields.
pub fn order_key(parts: &KeyParts) -> (k: OrderKey)
    ensures
        k@ == parts_order(*parts),
{
    let mut fields: Vec<Vec<u8>> = Vec::new();
    let ghost fields0 = fields@;
    match parts {
        KeyParts::Dsa { p, q, g, y } => {
            fields.push(single(0u8));
            fields.push(copy_bytes(p));
            fields.push(copy_bytes(q));
            fields.push(copy_bytes(g));
            fields.push(copy_bytes(y));
        },
        KeyParts::Ecdsa { curve, point } => {
            fields.push(single(1u8));
            let rank: u8 = match curve {
                EcdsaCurveKind::NistP256 => 0,
                EcdsaCurveKind::NistP384 => 1,
                EcdsaCurveKind::NistP521 => 2,
            };
            fields.push(single(rank));
            fields.push(copy_bytes(point));
        },
        KeyParts::Ed25519 { key } => {
            fields.push(single(2u8));
            fields.push(copy_bytes(key));
        },
        KeyParts::Rsa { e, n } => {
            fields.push(single(3u8));
            fields.push(copy_bytes(e));
            fields.push(copy_bytes(n));
        },
        KeyParts::SkEcdsaSha2NistP256 { point, application } => {
            fields.push(single(4u8));
            fields.push(copy_bytes(point));
            fields.push(copy_bytes(application));
        },
        KeyParts::SkEd25519 { key, application } => {
            fields.push(single(5u8));
            fields.push(copy_bytes(key));
            fields.push(copy_bytes(application));
        },
        KeyParts::Other { algorithm, key } => {
            fields.push(single(6u8));
            fields.push(copy_bytes(algorithm));
            fields.push(copy_bytes(key));
        },
    }
    let k = OrderKey { fields };
    assert(k@ =~= parts_order(*parts)) by {
        assert(k@.len() == parts_order(*parts).len());
        assert forall|i: int| 0 <= i < k@.len() implies k@[i] == parts_order(*parts)[i] by {
            assert(k@[i] == k.fields@[i]@);
        }
    }
    k
}

/// The Ed25519 key bytes of a public key, when it is an Ed25519 key.
#[verifier::external_body]
fn ed25519_fields(k: &KeyData) -> Option<Vec<u8>> {
    match k {
        KeyData::Ed25519(e) => Some(e.0.to_vec()),
        _ => None,
    }
}

/// The exponent and modulus of a public key, as stored, when it is an RSA key.
#[verifier::external_body]
fn rsa_fields(k: &KeyData) -> Option<(Vec<u8>, Vec<u8>)> {
    match k {
        KeyData::Rsa(r) => Some((r.e.as_bytes().to_vec(), r.n.as_bytes().to_vec())),
        _ => None,
    }
}

/// The curve and encoded point of a public key, when it is an ECDSA key.
#[verifier::external_body]
fn ecdsa_fields(k: &KeyData) -> Option<(EcdsaCurveKind, Vec<u8>)> {
    match k {
        KeyData::Ecdsa(EcdsaPublicKey::NistP256(p)) => Some((EcdsaCurveKind::NistP256, p.as_bytes().to_vec())),
        KeyData::Ecdsa(EcdsaPublicKey::NistP384(p)) => Some((EcdsaCurveKind::NistP384, p.as_bytes().to_vec())),
        KeyData::Ecdsa(EcdsaPublicKey::NistP521(p)) => Some((EcdsaCurveKind::NistP521, p.as_bytes().to_vec())),
        _ => None,
    }
}

/// The four integers of a public key, as stored, when it is a DSA key.
#[verifier::external_body]
fn dsa_fields(k: &KeyData) -> Option<(Vec<u8>, Vec<u8>, Vec<u8>, Vec<u8>)> {
    match k {
        KeyData::Dsa(d) => Some((d.p.as_bytes().to_vec(), d.q.as_bytes().to_vec(), d.g.as_bytes().to_vec(), d.y.as_bytes().to_vec())),
        _ => None,
    }
}

/// The point and application string of a public key, when it is an ECDSA security key.
#[verifier::external_body]
fn sk_ecdsa_fields(k: &KeyData) -> Option<(Vec<u8>, Vec<u8>)> {
    match k {
        KeyData::SkEcdsaSha2NistP256(s) => Some((s.ec_point().as_bytes().to_vec(), s.application().as_bytes().to_vec())),
        _ => None,
    }
}

/// The key bytes and application string of a public key, when it is an Ed25519 security key.
#[verifier::external_body]
fn sk_ed25519_fields(k: &KeyData) -> Option<(Vec<u8>, Vec<u8>)> {
    match k {
        KeyData::SkEd25519(s) => Some((s.public_key().0.to_vec(), s.application().as_bytes().to_vec())),
        _ => None,
    }
}

/// The algorithm name and key bytes of a public key, when it is an opaque key.
#[verifier::external_body]
fn opaque_fields(k: &KeyData) -> Option<(Vec<u8>, Vec<u8>)> {
    match k {
        KeyData::Other(o) => Some((o.algorithm.as_str().as_bytes().to_vec(), o.key.as_ref().to_vec())),
        _ => None,
    }
}

/// The name of a public key's algorithm (`KeyData::algorithm`, as text).
#[verifier::external_body]
fn algorithm_name(k: &KeyData) -> Vec<u8> {
    k.algorithm().as_str().as_bytes().to_vec()
}

/// Splits a public key into its fields, trying each kind of key in the order in which
/// `KeyData` declares them. Nothing is promised of the result: `KeyData` has no view in this
/// crate. A kind of key that a later `ssh-key` might add is reported as `Other` with its
/// algorithm name and no key bytes.
pub fn key_data_parts(k: &KeyData) -> KeyParts {
    if let Some((p, q, g, y)) = dsa_fields(k) {
        return KeyParts::Dsa { p, q, g, y };
    }
    if let Some((curve, point)) = ecdsa_fields(k) {
        return KeyParts::Ecdsa { curve, point };
    }
    if let Some(key) = ed25519_fields(k) {
        return KeyParts::Ed25519 { key };
    }
    if let Some((e, n)) = rsa_fields(k) {
        return KeyParts::Rsa { e, n };
    }
    if let Some((point, application)) = sk_ecdsa_fields(k) {
        return KeyParts::SkEcdsaSha2NistP256 { point, application };
    }
    if let Some((key, application)) = sk_ed25519_fields(k) {
        return KeyParts::SkEd25519 { key, application };
    }
    if let Some((algorithm, key)) = opaque_fields(k) {
        return KeyParts::Other { algorithm, key };
    }
    KeyParts::Other { algorithm: algorithm_name(k), key: Vec::new() }
}

/// The public half of a private key (`PrivateKey::public_key`, then `PublicKey::key_data`).
#[verifier::external_body]
pub(crate) fn public_key_data(k: &PrivateKey) -> KeyData {
    k.public_key().key_data().clone()
}

/// The comment stored on a private key (`PrivateKey::comment`).
#[verifier::external_body]
pub(crate) fn key_comment(k: &PrivateKey) -> String {
    k.comment().to_owned()
}

/// Signing algorithm family of a private key.
#[derive(Clone, Copy, Debug, PartialEq, Eq, Structural)]
pub enum KeyAlgorithm {
    Ed25519,
    Rsa,
    Unsupported,
}

/// Tells apart the algorithms of `PrivateKey::algorithm` that signing handles: Ed25519, RSA with
/// any hash, and everything else.
#[verifier::external_body]
pub(crate) fn key_algorithm(k: &PrivateKey) -> KeyAlgorithm {
    match k.algorithm() {
        Algorithm::Ed25519 => KeyAlgorithm::Ed25519,
        Algorithm::Rsa { .. } => KeyAlgorithm::Rsa,
        _ => KeyAlgorithm::Unsupported,
    }
}

/// The key material that signing reads from a private key, as plain bytes.
#[derive(Clone, Debug)]
pub enum SigningMaterial {
    /// An Ed25519 key pair: the 32-byte private seed and the 32-byte public key.
    Ed25519 { seed: [u8; 32], public: [u8; 32] },
    /// An RSA key pair: modulus, public and private exponents and the two primes, each as the
    /// big-endian bytes the key stores.
    Rsa { n: Vec<u8>, e: Vec<u8>, d: Vec<u8>, p: Vec<u8>, q: Vec<u8> },
    /// Any other key pair, or an encrypted one: nothing to sign with.
    Unavailable,
}

/// Reads the key material of a private key (`PrivateKey::key_data`), telling the key pair kinds
/// apart and copying out their fields.
#[verifier::external_body]
pub(crate) fn signing_material(k: &PrivateKey) -> SigningMaterial {
    match k.key_data() {
        KeypairData::Ed25519(kp) => SigningMaterial::Ed25519 { seed: kp.private.to_bytes(), public: kp.public.0 },
        KeypairData::Rsa(kp) => SigningMaterial::Rsa {
            n: kp.public.n.as_bytes().to_vec(),
            e: kp.public.e.as_bytes().to_vec(),
            d: kp.private.d.as_bytes().to_vec(),
            p: kp.private.p.as_bytes().to_vec(),
            q: kp.private.q.as_bytes().to_vec(),
        },
        _ => SigningMaterial::Unavailable,
    }
}

/// A private key loaded from a provider, with its public key, order key, comment and signing
/// algorithm.
#[derive(Clone, Debug)]
pub struct LoadedKey {
    pub key: PrivateKey,
    pub public: KeyData,
    pub parts: KeyParts,
    pub order: OrderKey,
    pub comment: String,
    pub algorithm: KeyAlgorithm,
    pub material: SigningMaterial,
}

impl LoadedKey {
    /// The order key is the one of the recorded public-key fields.
    pub open spec fn wf(&self) -> bool {
        self.order@ == parts_order(self.parts)
    }

    /// Wraps a private key, reading its public key, fields, comment and algorithm.
    pub fn new(key: PrivateKey) -> (r: LoadedKey)
        ensures
            r.key == key,
            r.wf(),
    {
        let public = public_key_data(&key);
        let parts = key_data_parts(&public);
        let order = order_key(&parts);
        let comment = key_comment(&key);
        let algorithm = key_algorithm(&key);
        let material = signing_material(&key);
        LoadedKey { key, public, parts, order, comment, algorithm, material }
    }

    /// The same key with `comment` written onto its private key (`PrivateKey::set_comment`, which
    /// changes the comment alone) and recorded as its comment; every other field stays as it was.
    pub fn with_comment(self, comment: String) -> (r: LoadedKey)
        ensures
            r.comment@ == comment@,
            r.public == self.public,
            r.parts == self.parts,
            r.order == self.order,
            r.algorithm == self.algorithm,
            r.material == self.material,
            r.wf() == self.wf(),
    {
        let mut key = self.key;
        let recorded = comment.clone();
        set_key_comment(&mut key, comment);
        LoadedKey {
            key,
            public: self.public,
            parts: self.parts,
            order: self.order,
            comment: recorded,
            algorithm: self.algorithm,
            material: self.material,
        }
    }

    /// The Ed25519 identity of a seed: the private key that `Ed25519Keypair::from_seed` gives,
    /// with no comment, its public key, and the seed and public key as its signing material.
    pub fn from_ed25519_seed(seed: [u8; 32]) -> (r: LoadedKey)
        ensures
            r.algorithm == KeyAlgorithm::Ed25519,
            r.material matches SigningMaterial::Ed25519 { seed: s, public: p } && s == seed && p@ == ed25519_public_of(seed@),
            r.parts matches KeyParts::Ed25519 { key } && key@ == ed25519_public_of(seed@),
            r.comment@ == Seq::<char>::empty(),
            r.wf(),
    {
        let (key, public) = ed25519_key_from_seed(&seed);
        let public_data = public_key_data(&key);
        let mut bytes: Vec<u8> = Vec::new();
        let mut i: usize = 0;
        while i < 32
            invariant
                i <= 32,
                public@.len() == 32,
                bytes@ == public@.take(i as int),
            decreases 32 - i,
        {
            bytes.push(public[i]);
            assert(public@.take(i + 1) =~= public@.take(i as int).push(public@[i as int]));
            i = i + 1;
        }
        assert(public@.take(32) =~= public@);
        let parts = KeyParts::Ed25519 { key: bytes };
        let order = order_key(&parts);
        LoadedKey {
            key,
            public: public_data,
            parts,
            order,
            comment: String::new(),
            algorithm: KeyAlgorithm::Ed25519,
            material: SigningMaterial::Ed25519 { seed, public },
        }
    }

    /// The same key with its order key computed again from its fields.
    pub fn reordered(self) -> (r: LoadedKey)
        ensures
            same_identity(r, self),
            r.wf(),
    {
        let order = order_key(&self.parts);
        LoadedKey { order, ..self }
    }
}

/// The Ed25519 public key that a private seed derives.
pub uninterp spec fn ed25519_public_of(seed: Seq<u8>) -> Seq<u8>;

/// The Ed25519 private key of a seed (`Ed25519Keypair::from_seed`, then `PrivateKey::from`) and
/// the public key it derives. The pair is consistent, so it signs any data.
#[verifier::external_body]
fn ed25519_key_from_seed(seed: &[u8; 32]) -> (r: (PrivateKey, [u8; 32]))
    ensures
        r.1@ == ed25519_public_of(seed@),
        forall|data: Seq<u8>| #[trigger] ed25519_signature(seed@, r.1@, data) is Some,
{
    let keypair = Ed25519Keypair::from_seed(seed);
    let public = keypair.public.0;
    (PrivateKey::from(keypair), public)
}

/// `a` and `b` are the same loaded key, whatever their order keys.
pub open spec fn same_identity(a: LoadedKey, b: LoadedKey) -> bool {
    &&& a.key == b.key
    &&& a.public == b.public
    &&& a.parts == b.parts
    &&& a.comment == b.comment
    &&& a.algorithm == b.algorithm
    &&& a.material == b.material
}

/// Sets the comment of a private key (`PrivateKey::set_comment`).
#[verifier::external_body]
pub(crate) fn set_key_comment(key: &mut PrivateKey, comment: String) {
    key.set_comment(comment)
}

/// No later element of `s` has the same order key as `s[j]`.
#[verifier::opaque]
pub open spec fn is_last_occurrence(s: Seq<LoadedKey>, j: int) -> bool {
    forall|k: int| j < k < s.len() ==> #[trigger] s[k].order@ != s[j].order@
}

/// Order keys strictly ascend along `s`.
pub open spec fn strictly_ascending(s: Seq<LoadedKey>) -> bool {
    forall|i: int, j: int| 0 <= i < j < s.len() ==> fields_lt(#[trigger] s[i].order@, #[trigger] s[j].order@)
}

/// `out` is the snapshot of `input`: for each public key of `input` the last key that carries it,
/// in ascending public-key order.
pub open spec fn is_snapshot_of(input: Seq<LoadedKey>, out: Seq<LoadedKey>) -> bool {
    &&& strictly_ascending(out)
    &&& drawn_from(input, 0, out)
    &&& covers(input, 0, out)
}

/// Every key carries an order key built from its fields.
pub open spec fn all_wf(s: Seq<LoadedKey>) -> bool {
    forall|i: int| 0 <= i < s.len() ==> #[trigger] s[i].wf()
}

/// Puts `x` into the ascending list `out` unless a key with the same public key is already
/// there; returns whether it was put in.
fn place_key(out: &mut Vec<LoadedKey>, x: LoadedKey) -> (inserted: bool)
    requires
        strictly_ascending(old(out)@),
        all_wf(old(out)@),
        x.wf(),
    ensures
        strictly_ascending(final(out)@),
        all_wf(final(out)@),
        inserted ==> forall|i: int| 0 <= i < old(out)@.len() ==> #[trigger] old(out)@[i].order@ != x.order@,
        inserted ==> exists|p: int| 0 <= p <= old(out)@.len() && final(out)@ == old(out)@.insert(p, x),
        !inserted ==> final(out)@ == old(out)@,
        !inserted ==> exists|i: int| 0 <= i < old(out)@.len() && #[trigger] old(out)@[i].order@ == x.order@,
{
    let mut p: usize = 0;
    while p < out.len() && compare_keys(&out[p].order, &x.order) == Cmp3::Less
        invariant
            p <= out@.len(),
            forall|i: int| 0 <= i < p ==> fields_lt(#[trigger] out@[i].order@, x.order@),
        decreases out@.len() - p,
    {
        p = p + 1;
    }
    if p < out.len() && compare_keys(&out[p].order, &x.order) == Cmp3::Equal {
        assert(out@[p as int].order@ == x.order@);
        return false;
    }
    proof {
        if p < out@.len() {
            lemma_fields_lt_total(out@[p as int].order@, x.order@);
            assert(fields_lt(x.order@, out@[p as int].order@));
        }
        assert forall|i: int| 0 <= i < out@.len() implies #[trigger] out@[i].order@ != x.order@ by {
            if i < p {
                lemma_fields_lt_irreflexive(x.order@);
            } else if i > p {
                assert(fields_lt(out@[p as int].order@, out@[i].order@));
                lemma_fields_lt_transitive(x.order@, out@[p as int].order@, out@[i].order@);
                lemma_fields_lt_irreflexive(x.order@);
            }
        }
    }
    let ghost old_out = out@;
    let ghost xv = x;
    out.insert(p, x);
    proof {
        assert(out@ == old_out.insert(p as int, xv));
        assert forall|i: int, j: int| 0 <= i < j < out@.len() implies fields_lt(#[trigger] out@[i].order@, #[trigger] out@[j].order@) by {
            if j < p {
                assert(out@[i] == old_out[i] && out@[j] == old_out[j]);
            } else if j == p {
                assert(out@[i] == old_out[i]);
            } else if i < p {
                assert(out@[i] == old_out[i] && out@[j] == old_out[j - 1]);
                if p < j - 1 {
                    assert(fields_lt(old_out[p as int].order@, old_out[j - 1].order@));
                }
                lemma_fields_lt_transitive(old_out[i].order@, xv.order@, old_out[p as int].order@);
                if p < j - 1 {
                    lemma_fields_lt_transitive(old_out[i].order@, old_out[p as int].order@, old_out[j - 1].order@);
                }
            } else if i == p {
                assert(out@[j] == old_out[j - 1]);
                if p < j - 1 {
                    assert(fields_lt(old_out[p as int].order@, old_out[j - 1].order@));
                    lemma_fields_lt_transitive(xv.order@, old_out[p as int].order@, old_out[j - 1].order@);
                }
            } else {
                assert(out@[i] == old_out[i - 1] && out@[j] == old_out[j - 1]);
            }
        }
        assert forall|i: int| 0 <= i < out@.len() implies #[trigger] out@[i].wf() by {
            if i < p {
                assert(out@[i] == old_out[i]);
            } else if i > p {
                assert(out@[i] == old_out[i - 1]);
            }
        }
    }
    true
}

/// Every key of `out` is a key of `orig` at or after `m` that no later key of `orig` overrides.
pub open spec fn drawn_from(orig: Seq<LoadedKey>, m: int, out: Seq<LoadedKey>) -> bool {
    forall|i: int| 0 <= i < out.len() ==> #[trigger] has_origin(orig, m, out[i])
}

/// `x` is a key of `orig` at or after `m` that no later key of `orig` overrides.
pub open spec fn has_origin(orig: Seq<LoadedKey>, m: int, x: LoadedKey) -> bool {
    exists|j: int| m <= j < orig.len() && #[trigger] orig[j] == x && is_last_occurrence(orig, j)
}

/// Every public key of `orig` at or after `m` has a key in `out`.
pub open spec fn covers(orig: Seq<LoadedKey>, m: int, out: Seq<LoadedKey>) -> bool {
    forall|j: int| #![trigger orig[j]] m <= j < orig.len() ==> exists|i: int| 0 <= i < out.len() && #[trigger] out[i].order@ == orig[j].order@
}

proof fn lemma_last_occurrence(orig: Seq<LoadedKey>, m: int, old_out: Seq<LoadedKey>)
    requires
        0 <= m < orig.len(),
        covers(orig, m + 1, old_out),
        forall|i: int| 0 <= i < old_out.len() ==> #[trigger] old_out[i].order@ != orig[m].order@,
    ensures
        is_last_occurrence(orig, m),
{
    assert forall|k: int| m < k < orig.len() implies #[trigger] orig[k].order@ != orig[m].order@ by {
        let i = choose|i: int| 0 <= i < old_out.len() && #[trigger] old_out[i].order@ == orig[k].order@;
        assert(old_out[i].order@ != orig[m].order@);
    }
    reveal(is_last_occurrence);
}

proof fn lemma_drawn_inserted(orig: Seq<LoadedKey>, m: int, old_out: Seq<LoadedKey>, out: Seq<LoadedKey>, p: int)
    requires
        0 <= m < orig.len(),
        drawn_from(orig, m + 1, old_out),
        is_last_occurrence(orig, m),
        0 <= p <= old_out.len(),
        out == old_out.insert(p, orig[m]),
    ensures
        drawn_from(orig, m, out),
{
    assert forall|i: int| 0 <= i < out.len() implies #[trigger] has_origin(orig, m, out[i]) by {
        if i == p {
            assert(orig[m] == out[i]);
        } else {
            let k = if i < p { i } else { i - 1 };
            assert(out[i] == old_out[k]);
            assert(has_origin(orig, m + 1, old_out[k]));
            let j = choose|j: int| m + 1 <= j < orig.len() && #[trigger] orig[j] == old_out[k] && is_last_occurrence(orig, j);
            assert(orig[j] == out[i]);
        }
    }
}

proof fn lemma_covers_inserted(orig: Seq<LoadedKey>, m: int, old_out: Seq<LoadedKey>, out: Seq<LoadedKey>, p: int)
    requires
        0 <= m < orig.len(),
        covers(orig, m + 1, old_out),
        0 <= p <= old_out.len(),
        out == old_out.insert(p, orig[m]),
    ensures
        covers(orig, m, out),
{
    assert forall|j: int| #![trigger orig[j]] m <= j < orig.len() implies exists|i: int| 0 <= i < out.len() && #[trigger] out[i].order@ == orig[j].order@ by {
        if j == m {
            assert(out[p] == orig[m]);
            assert(out[p].order@ == orig[j].order@);
        } else {
            let i = choose|i: int| 0 <= i < old_out.len() && #[trigger] old_out[i].order@ == orig[j].order@;
            if i < p {
                assert(out[i] == old_out[i]);
            } else {
                assert(out[i + 1] == old_out[i]);
            }
        }
    }
}

proof fn lemma_drawn_kept(orig: Seq<LoadedKey>, m: int, out: Seq<LoadedKey>)
    requires
        0 <= m < orig.len(),
        drawn_from(orig, m + 1, out),
    ensures
        drawn_from(orig, m, out),
{
    assert forall|i: int| 0 <= i < out.len() implies #[trigger] has_origin(orig, m, out[i]) by {
        assert(has_origin(orig, m + 1, out[i]));
        let j = choose|j: int| m + 1 <= j < orig.len() && #[trigger] orig[j] == out[i] && is_last_occurrence(orig, j);
        assert(orig[j] == out[i]);
    }
}

proof fn lemma_covers_kept(orig: Seq<LoadedKey>, m: int, out: Seq<LoadedKey>)
    requires
        0 <= m < orig.len(),
        covers(orig, m + 1, out),
        exists|i: int| 0 <= i < out.len() && #[trigger] out[i].order@ == orig[m].order@,
    ensures
        covers(orig, m, out),
{
    assert forall|j: int| #![trigger orig[j]] m <= j < orig.len() implies exists|i: int| 0 <= i < out.len() && #[trigger] out[i].order@ == orig[j].order@ by {
        if j == m {
            let i = choose|i: int| 0 <= i < out.len() && #[trigger] out[i].order@ == orig[m].order@;
            assert(out[i].order@ == orig[j].order@);
        }
    }
}

/// Builds a session snapshot from keys listed in load order: one key per public key, the last
/// one loaded, in ascending public-key order.
pub fn snapshot_keys(keys: Vec<LoadedKey>) -> (out: Vec<LoadedKey>)
    requires
        all_wf(keys@),
    ensures
        is_snapshot_of(keys@, out@),
        all_wf(out@),
{
    let ghost orig = keys@;
    let mut keys = keys;
    let mut out: Vec<LoadedKey> = Vec::new();
    while keys.len() > 0
        invariant
            keys@ == orig.take(keys@.len() as int),
            keys@.len() <= orig.len(),
            all_wf(orig),
            all_wf(out@),
            strictly_ascending(out@),
            drawn_from(orig, keys@.len() as int, out@),
            covers(orig, keys@.len() as int, out@),
        decreases keys@.len(),
    {
        let ghost m = keys@.len() - 1;
        let ghost old_out = out@;
        let x = keys.pop().unwrap();
        assert(x == orig[m]);
        assert(keys@ =~= orig.take(m));
        let ghost xv = x;
        let inserted = place_key(&mut out, x);
        proof {
            if inserted {
                let p = choose|p: int| 0 <= p <= old_out.len() && out@ == old_out.insert(p, xv);
                lemma_last_occurrence(orig, m, old_out);
                lemma_drawn_inserted(orig, m, old_out, out@, p);
                lemma_covers_inserted(orig, m, old_out, out@, p);
            } else {
                lemma_drawn_kept(orig, m, out@);
                lemma_covers_kept(orig, m, out@);
            }
        }
    }
    assert(drawn_from(orig, 0, out@));
    assert(covers(orig, 0, out@));
    out
}


/// The public-key order keys of `s`, in order.
pub open spec fn orders(s: Seq<LoadedKey>) -> Seq<Seq<Seq<u8>>> {
    s.map_values(|k: LoadedKey| k.order@)
}

/// Whether some key of `s` has the order key `o`.
pub open spec fn has_order(s: Seq<LoadedKey>, o: Seq<Seq<u8>>) -> bool {
    exists|i: int| 0 <= i < s.len() && #[trigger] s[i].order@ == o
}

/// No two keys of a snapshot share a public key.
pub proof fn law_snapshot_has_no_duplicates(input: Seq<LoadedKey>, out: Seq<LoadedKey>)
    requires
        is_snapshot_of(input, out),
    ensures
        forall|i: int, j: int| 0 <= i < out.len() && 0 <= j < out.len() && i != j ==> #[trigger] out[i].order@ != #[trigger] out[j].order@,
{
    assert forall|i: int, j: int| 0 <= i < out.len() && 0 <= j < out.len() && i != j implies #[trigger] out[i].order@ != #[trigger] out[j].order@ by {
        if i < j {
            assert(fields_lt(out[i].order@, out[j].order@));
            lemma_fields_lt_irreflexive(out[i].order@);
        } else {
            assert(fields_lt(out[j].order@, out[i].order@));
            lemma_fields_lt_irreflexive(out[j].order@);
        }
    }
}

/// A snapshot publishes exactly the public keys of its input.
proof fn lemma_snapshot_key_set(input: Seq<LoadedKey>, out: Seq<LoadedKey>, o: Seq<Seq<u8>>)
    requires
        is_snapshot_of(input, out),
    ensures
        has_order(out, o) <==> has_order(input, o),
{
    if has_order(out, o) {
        let i = choose|i: int| 0 <= i < out.len() && #[trigger] out[i].order@ == o;
        assert(has_origin(input, 0, out[i]));
        let j = choose|j: int| 0 <= j < input.len() && #[trigger] input[j] == out[i] && is_last_occurrence(input, j);
        assert(input[j].order@ == o);
    }
    if has_order(input, o) {
        let j = choose|j: int| 0 <= j < input.len() && #[trigger] input[j].order@ == o;
        let i = choose|i: int| 0 <= i < out.len() && #[trigger] out[i].order@ == input[j].order@;
        assert(out[i].order@ == o);
    }
}

/// Two strictly ascending key lists with the same public keys list them in the same order.
proof fn lemma_ascending_unique(a: Seq<LoadedKey>, b: Seq<LoadedKey>)
    requires
        strictly_ascending(a),
        strictly_ascending(b),
        forall|o: Seq<Seq<u8>>| has_order(a, o) <==> has_order(b, o),
    ensures
        orders(a) == orders(b),
    decreases a.len() + b.len(),
{
    if a.len() == 0 || b.len() == 0 {
        if a.len() > 0 {
            assert(has_order(a, a[0].order@));
        }
        if b.len() > 0 {
            assert(has_order(b, b[0].order@));
        }
        assert(orders(a) =~= orders(b));
    } else {
        assert(has_order(a, a[0].order@));
        assert(has_order(b, b[0].order@));
        let j = choose|j: int| 0 <= j < b.len() && #[trigger] b[j].order@ == a[0].order@;
        let i = choose|i: int| 0 <= i < a.len() && #[trigger] a[i].order@ == b[0].order@;
        if j > 0 {
            assert(fields_lt(b[0].order@, b[j].order@));
            if i > 0 {
                assert(fields_lt(a[0].order@, a[i].order@));
                lemma_fields_lt_asymmetric(a[0].order@, a[i].order@);
            } else {
                lemma_fields_lt_irreflexive(b[0].order@);
            }
        }
        assert(a[0].order@ == b[0].order@);
        let a1 = a.drop_first();
        let b1 = b.drop_first();
        assert forall|o: Seq<Seq<u8>>| has_order(a1, o) <==> has_order(b1, o) by {
            if has_order(a1, o) {
                let k = choose|k: int| 0 <= k < a1.len() && #[trigger] a1[k].order@ == o;
                assert(a[k + 1].order@ == o);
                assert(has_order(a, o));
                let m = choose|m: int| 0 <= m < b.len() && #[trigger] b[m].order@ == o;
                assert(fields_lt(a[0].order@, a[k + 1].order@));
                if m == 0 {
                    lemma_fields_lt_irreflexive(o);
                }
                assert(b1[m - 1].order@ == o);
            }
            if has_order(b1, o) {
                let k = choose|k: int| 0 <= k < b1.len() && #[trigger] b1[k].order@ == o;
                assert(b[k + 1].order@ == o);
                assert(has_order(b, o));
                let m = choose|m: int| 0 <= m < a.len() && #[trigger] a[m].order@ == o;
                assert(fields_lt(b[0].order@, b[k + 1].order@));
                if m == 0 {
                    lemma_fields_lt_irreflexive(o);
                }
                assert(a1[m - 1].order@ == o);
            }
        }
        assert(strictly_ascending(a1)) by {
            assert forall|x: int, y: int| 0 <= x < y < a1.len() implies fields_lt(#[trigger] a1[x].order@, #[trigger] a1[y].order@) by {
                assert(a1[x] == a[x + 1] && a1[y] == a[y + 1]);
            }
        }
        assert(strictly_ascending(b1)) by {
            assert forall|x: int, y: int| 0 <= x < y < b1.len() implies fields_lt(#[trigger] b1[x].order@, #[trigger] b1[y].order@) by {
                assert(b1[x] == b[x + 1] && b1[y] == b[y + 1]);
            }
        }
        lemma_ascending_unique(a1, b1);
        assert(orders(a) =~= orders(b)) by {
            assert(orders(a).len() == orders(b).len()) by {
                assert(orders(a1).len() == orders(b1).len());
            }
            assert forall|x: int| 0 <= x < orders(a).len() implies orders(a)[x] == orders(b)[x] by {
                if x > 0 {
                    assert(orders(a1)[x - 1] == orders(b1)[x - 1]);
                }
            }
        }
    }
}

/// The public keys a snapshot lists, and their order, depend only on which public keys were
/// loaded, not on the order in which providers returned them.
pub proof fn law_snapshot_order_is_stable(a: Seq<LoadedKey>, out_a: Seq<LoadedKey>, b: Seq<LoadedKey>, out_b: Seq<LoadedKey>)
    requires
        is_snapshot_of(a, out_a),
        is_snapshot_of(b, out_b),
        forall|o: Seq<Seq<u8>>| has_order(a, o) <==> has_order(b, o),
    ensures
        orders(out_a) == orders(out_b),
{
    assert forall|o: Seq<Seq<u8>>| has_order(out_a, o) <==> has_order(out_b, o) by {
        lemma_snapshot_key_set(a, out_a, o);
        lemma_snapshot_key_set(b, out_b, o);
    }
    lemma_ascending_unique(out_a, out_b);
}

} // verus!
