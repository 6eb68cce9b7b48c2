//! Provider-backed SSH agent: one session per connection, a per-session key snapshot, local
//! signing, and the `query` and `session-bind@openssh.com` extensions.

use vstd::prelude::*;
use vstd::utf8::encode_utf8;
use rsa::pkcs1v15::SigningKey as RsaSigningKey;
use sha2::{Sha256, Sha512};
use signature::{SignatureEncoding, Signer};
use ssh_agent_lib::proto::Extension;
use ssh_agent_lib::proto::extension::{QueryResponse, SessionBind};
use ssh_agent_lib::proto::Unparsed;
use ssh_agent_lib::proto::ProtoError;
use ssh_key::private::{Ed25519Keypair, Ed25519PrivateKey};
use ssh_key::public::Ed25519PublicKey;
use ssh_key::public::KeyData;
use ssh_key::{PrivateKey, Signature};
use crate::keys::{KeyAlgorithm, LoadedKey, SigningMaterial, same_identity, all_wf, is_snapshot_of, snapshot_keys, strictly_ascending};
use crate::order::Cmp3;
use crate::keys::parts_order;

verus! {

#[verifier::external_type_specification]
#[verifier::external_body]
pub struct ExSignatureError(signature::Error);

#[verifier::external_type_specification]
#[verifier::external_body]
pub struct ExSshKeyError(ssh_key::Error);

#[verifier::external_type_specification]
#[verifier::external_body]
pub struct ExProtoError(ssh_agent_lib::proto::ProtoError);

/// Why the agent could not be assembled.
#[derive(Clone, Copy, Debug, PartialEq, Eq, Structural)]
pub enum AgentSetupError {
    NoProviders,
}

impl AgentSetupError {
    /// The error text.
    pub fn message(&self) -> (m: String)
        ensures
            m@ == "at least one provider must be configured"@,
    {
        String::from_str("at least one provider must be configured")
    }
}

/// SSH agent that hands its providers to every session.
pub struct ServiceAgent<P> {
    pub providers: Vec<P>,
}

impl<P> ServiceAgent<P> {
    /// Stores the configured providers; an empty list is refused.
    pub fn new(providers: Vec<P>) -> (r: Result<ServiceAgent<P>, AgentSetupError>)
        ensures
            providers@.len() == 0 <==> r is Err,
            r matches Ok(a) ==> a.providers@ == providers@,
            r matches Err(e) ==> e == AgentSetupError::NoProviders,
    {
        if providers.len() == 0 {
            return Err(AgentSetupError::NoProviders);
        }
        Ok(ServiceAgent { providers })
    }
}

impl<P: Clone> ServiceAgent<P> {
    /// A fresh session for a new connection: a copy of the agent's providers, no keys loaded,
    /// no bindings.
    pub fn new_session(&self) -> (s: ServiceSession<P>)
        ensures
            s.providers@.len() == self.providers@.len(),
            forall|i: int| 0 <= i < self.providers@.len() ==> cloned(self.providers@[i], #[trigger] s.providers@[i]),
            s.keys is None,
            s.session_bindings@.len() == 0,
            s.wf(),
    {
        let mut providers: Vec<P> = Vec::new();
        let mut i: usize = 0;
        while i < self.providers.len()
            invariant
                i <= self.providers@.len(),
                providers@.len() == i,
                forall|j: int| 0 <= j < i ==> cloned(self.providers@[j], #[trigger] providers@[j]),
            decreases self.providers@.len() - i,
        {
            let p = self.providers[i].clone();
            providers.push(p);
            i = i + 1;
        }
        ServiceSession::new(providers)
    }
}

/// A `session-bind@openssh.com` record accepted on one connection.
pub struct SessionBinding {
    pub session_id: Vec<u8>,
    pub is_forwarding: bool,
}

/// Why a session-bind request was refused.
#[derive(Clone, Copy, Debug, PartialEq, Eq, Structural)]
pub enum BindRefusal {
    /// The same session identifier was bound before on this connection.
    DuplicateSession,
    /// The connection was already bound for authentication.
    AlreadyBoundForAuthentication,
}

/// Per-connection state: the providers it loads from, the key snapshot, loaded once, and the
/// accepted session bindings.
pub struct ServiceSession<P> {
    pub providers: Vec<P>,
    pub keys: Option<Vec<LoadedKey>>,
    pub session_bindings: Vec<SessionBinding>,
}

/// Bindings have distinct session identifiers, and a binding for authentication (not for
/// forwarding) can only be the last one.
pub open spec fn bindings_wf(b: Seq<SessionBinding>) -> bool {
    &&& forall|i: int, j: int| 0 <= i < j < b.len() ==> #[trigger] b[i].session_id@ != #[trigger] b[j].session_id@
    &&& forall|i: int| 0 <= i < b.len() - 1 ==> #[trigger] b[i].is_forwarding
}

/// Whether a binding for authentication is among `b`.
pub open spec fn bound_for_authentication(b: Seq<SessionBinding>) -> bool {
    exists|i: int| 0 <= i < b.len() && !#[trigger] b[i].is_forwarding
}

/// `new` is `old` with one more binding, of session `id` and forwarding flag `forwarding`.
pub open spec fn records_binding(old: Seq<SessionBinding>, new: Seq<SessionBinding>, id: Seq<u8>, forwarding: bool) -> bool {
    &&& new.len() == old.len() + 1
    &&& new.take(old.len() as int) == old
    &&& new.last().session_id@ == id
    &&& new.last().is_forwarding == forwarding
}

/// Whether `id` was bound before among `b`.
pub open spec fn has_session(b: Seq<SessionBinding>, id: Seq<u8>) -> bool {
    exists|i: int| 0 <= i < b.len() && #[trigger] b[i].session_id@ == id
}

/// Identity published to clients: a public key and its comment.
pub struct PublishedIdentity {
    pub pubkey: KeyData,
    pub comment: String,
}

/// Why a sign request failed.
#[derive(Clone, Copy, Debug, PartialEq, Eq, Structural)]
pub enum SignError {
    /// No key of the snapshot has the requested public key.
    NoMatchingIdentity,
    /// The key's signing operation failed.
    SignFailed,
    /// An RSA key was asked to sign without either SHA-2 flag.
    RsaHashRequired,
    /// The key claims RSA but holds no RSA key pair.
    NotRsaKey,
    /// The RSA key pair could not be turned into a signing key.
    RsaPrepareFailed,
    /// The key's algorithm is neither Ed25519 nor RSA.
    UnsupportedAlgorithm,
}

impl SignError {
    /// The error text.
    pub fn message(&self) -> (m: String)
        ensures
            m@ == spec_sign_error_message(*self),
    {
        match self {
            SignError::NoMatchingIdentity => String::from_str("no published identity matched the requested public key blob"),
            SignError::SignFailed => String::from_str("identity failed to sign"),
            SignError::RsaHashRequired => String::from_str("identity only supports rsa-sha2-256 and rsa-sha2-512"),
            SignError::NotRsaKey => String::from_str("identity is not an rsa key"),
            SignError::RsaPrepareFailed => String::from_str("identity failed to prepare rsa signing"),
            SignError::UnsupportedAlgorithm => String::from_str("identity uses an unsupported key algorithm"),
        }
    }
}

/// Text of each sign error.
pub open spec fn spec_sign_error_message(e: SignError) -> Seq<char> {
    match e {
        SignError::NoMatchingIdentity => "no published identity matched the requested public key blob"@,
        SignError::SignFailed => "identity failed to sign"@,
        SignError::RsaHashRequired => "identity only supports rsa-sha2-256 and rsa-sha2-512"@,
        SignError::NotRsaKey => "identity is not an rsa key"@,
        SignError::RsaPrepareFailed => "identity failed to prepare rsa signing"@,
        SignError::UnsupportedAlgorithm => "identity uses an unsupported key algorithm"@,
    }
}

/// Hash used with an RSA signature.
#[derive(Clone, Copy, Debug, PartialEq, Eq, Structural)]
pub enum RsaHash {
    Sha256,
    Sha512,
}

/// Flag of a sign request asking for `rsa-sha2-256`.
pub const RSA_SHA2_256: u32 = 2;

/// Flag of a sign request asking for `rsa-sha2-512`.
pub const RSA_SHA2_512: u32 = 4;

/// The RSA hash a sign request asks for: SHA-256 takes precedence over SHA-512, and a request
/// with neither flag gets none.
pub open spec fn spec_rsa_hash(flags: u32) -> Option<RsaHash> {
    if flags & RSA_SHA2_256 != 0 {
        Some(RsaHash::Sha256)
    } else if flags & RSA_SHA2_512 != 0 {
        Some(RsaHash::Sha512)
    } else {
        None
    }
}

/// Chooses the RSA hash from the flags of a sign request.
pub fn rsa_hash_for(flags: u32) -> (h: Option<RsaHash>)
    ensures
        h == spec_rsa_hash(flags),
{
    if flags & RSA_SHA2_256 != 0 {
        Some(RsaHash::Sha256)
    } else if flags & RSA_SHA2_512 != 0 {
        Some(RsaHash::Sha512)
    } else {
        None
    }
}

/// Algorithm of a signature the agent produces.
#[derive(Clone, Copy, Debug, PartialEq, Eq, Structural)]
pub enum SignatureAlgorithm {
    /// `ssh-ed25519`.
    Ed25519,
    /// `rsa-sha2-256`.
    RsaSha256,
    /// `rsa-sha2-512`.
    RsaSha512,
}

/// A signature: its algorithm and the raw signature bytes of that algorithm.
#[derive(Debug)]
pub struct AgentSignature {
    pub algorithm: SignatureAlgorithm,
    pub bytes: Vec<u8>,
}

/// The signature algorithm of an RSA signature made with `hash`.
pub open spec fn spec_rsa_signature_algorithm(hash: RsaHash) -> SignatureAlgorithm {
    match hash {
        RsaHash::Sha256 => SignatureAlgorithm::RsaSha256,
        RsaHash::Sha512 => SignatureAlgorithm::RsaSha512,
    }
}

/// `r` is a signature of algorithm `algorithm` with the bytes `bytes`.
pub open spec fn is_signature(r: Result<AgentSignature, SignError>, algorithm: SignatureAlgorithm, bytes: Seq<u8>) -> bool {
    r matches Ok(s) && s.algorithm == algorithm && s.bytes@ == bytes
}

/// The Ed25519 signature bytes of `data` under the key pair with private seed `seed` and public
/// key `public`, or `None` when the pair does not sign: the public key does not decode as a
/// curve point or is not the one the seed derives.
pub uninterp spec fn ed25519_signature(seed: Seq<u8>, public: Seq<u8>, data: Seq<u8>) -> Option<Seq<u8>>;

/// Ed25519 signature of `data` with the key pair `seed`, `public`
/// (`Signer::try_sign` of `Ed25519Keypair`, which checks the pair before signing), as bytes.
#[verifier::external_body]
fn ed25519_sign(seed: &[u8; 32], public: &[u8; 32], data: &[u8]) -> (r: Result<Vec<u8>, signature::Error>)
    ensures
        match r {
            Ok(b) => ed25519_signature(seed@, public@, data@) == Some(b@),
            Err(_) => ed25519_signature(seed@, public@, data@) is None,
        },
{
    let keypair = Ed25519Keypair { public: Ed25519PublicKey(*public), private: Ed25519PrivateKey::from_bytes(seed) };
    keypair.try_sign(data).map(|signature: Signature| signature.as_bytes().to_vec())
}

/// Which step of an RSA signature failed.
#[derive(Clone, Copy, Debug, PartialEq, Eq, Structural)]
pub enum RsaFailure {
    /// The components do not form a valid RSA key.
    Prepare,
    /// The signing operation failed.
    Sign,
}

/// RSASSA-PKCS1-v1_5 signature with SHA-256 of `data` under the RSA key with modulus `n`, public
/// exponent `e`, private exponent `d` and primes `p`, `q` (big-endian), or the step that fails.
pub uninterp spec fn rsa_sha256_signature(n: Seq<u8>, e: Seq<u8>, d: Seq<u8>, p: Seq<u8>, q: Seq<u8>, data: Seq<u8>) -> Result<Seq<u8>, RsaFailure>;

/// The same with SHA-512.
pub uninterp spec fn rsa_sha512_signature(n: Seq<u8>, e: Seq<u8>, d: Seq<u8>, p: Seq<u8>, q: Seq<u8>, data: Seq<u8>) -> Result<Seq<u8>, RsaFailure>;

/// Signs with SHA-256 (`SigningKey::<Sha256>::try_sign`) under the key that
/// `RsaPrivateKey::from_components` builds, and validates, from the given components.
#[verifier::external_body]
fn rsa_sign_sha256(n: &[u8], e: &[u8], d: &[u8], p: &[u8], q: &[u8], data: &[u8]) -> (r: Result<Vec<u8>, RsaFailure>)
    ensures
        match r {
            Ok(b) => rsa_sha256_signature(n@, e@, d@, p@, q@, data@) == Ok::<Seq<u8>, RsaFailure>(b@),
            Err(f) => rsa_sha256_signature(n@, e@, d@, p@, q@, data@) == Err::<Seq<u8>, RsaFailure>(f),
        },
{
    let big = rsa::BigUint::from_bytes_be;
    let key = rsa::RsaPrivateKey::from_components(big(n), big(e), big(d), vec![big(p), big(q)]).map_err(|_| RsaFailure::Prepare)?;
    RsaSigningKey::<Sha256>::new(key).try_sign(data).map(|s| s.to_vec()).map_err(|_| RsaFailure::Sign)
}

/// Signs with SHA-512 (`SigningKey::<Sha512>::try_sign`) under the key that
/// `RsaPrivateKey::from_components` builds, and validates, from the given components.
#[verifier::external_body]
fn rsa_sign_sha512(n: &[u8], e: &[u8], d: &[u8], p: &[u8], q: &[u8], data: &[u8]) -> (r: Result<Vec<u8>, RsaFailure>)
    ensures
        match r {
            Ok(b) => rsa_sha512_signature(n@, e@, d@, p@, q@, data@) == Ok::<Seq<u8>, RsaFailure>(b@),
            Err(f) => rsa_sha512_signature(n@, e@, d@, p@, q@, data@) == Err::<Seq<u8>, RsaFailure>(f),
        },
{
    let big = rsa::BigUint::from_bytes_be;
    let key = rsa::RsaPrivateKey::from_components(big(n), big(e), big(d), vec![big(p), big(q)]).map_err(|_| RsaFailure::Prepare)?;
    RsaSigningKey::<Sha512>::new(key).try_sign(data).map(|s| s.to_vec()).map_err(|_| RsaFailure::Sign)
}

/// Smallest RSA modulus accepted for signing, in bytes (2048 bits).
pub const RSA_MIN_MODULUS_BYTES: usize = 256;

/// Length of a big-endian number without its leading zero bytes.
pub open spec fn spec_significant_len(n: Seq<u8>) -> nat
    decreases n.len(),
{
    if n.len() == 0 {
        0
    } else if n[0] == 0 {
        spec_significant_len(n.drop_first())
    } else {
        n.len()
    }
}

/// Counts the bytes of a big-endian number from its first non-zero byte on.
pub fn significant_len(n: &[u8]) -> (r: usize)
    ensures
        r == spec_significant_len(n@),
{
    let mut i: usize = 0;
    assert(n@.subrange(0, n@.len() as int) =~= n@);
    while i < n.len() && n[i] == 0
        invariant
            i <= n@.len(),
            spec_significant_len(n@) == spec_significant_len(n@.subrange(i as int, n@.len() as int)),
        decreases n@.len() - i,
    {
        assert(n@.subrange(i as int, n@.len() as int).drop_first() =~= n@.subrange(i + 1, n@.len() as int));
        i = i + 1;
    }
    if i == n.len() {
        assert(n@.subrange(i as int, n@.len() as int).len() == 0);
        0
    } else {
        n.len() - i
    }
}

/// The RSA signature of `data` with hash `hash` under the components of `material`.
pub open spec fn spec_rsa_signature(hash: RsaHash, n: Seq<u8>, e: Seq<u8>, d: Seq<u8>, p: Seq<u8>, q: Seq<u8>, data: Seq<u8>) -> Result<Seq<u8>, RsaFailure> {
    match hash {
        RsaHash::Sha256 => rsa_sha256_signature(n, e, d, p, q, data),
        RsaHash::Sha512 => rsa_sha512_signature(n, e, d, p, q, data),
    }
}

/// What signing `data` with a key of `algorithm` and key material `material` gives for a request
/// with `flags`.
///
/// An unsupported algorithm is refused. Ed25519 gives the Ed25519 signature of the key pair,
/// when the pair is consistent. RSA needs one of the SHA-2 flags (SHA-256 first) and an RSA key
/// pair of at least 2048 bits, and then gives the PKCS#1 v1.5 signature with that hash, when
/// the components form a valid key and signing succeeds.
pub open spec fn spec_sign_outcome(algorithm: KeyAlgorithm, material: SigningMaterial, flags: u32, data: Seq<u8>, r: Result<AgentSignature, SignError>) -> bool {
    match algorithm {
        KeyAlgorithm::Unsupported => r == Err::<AgentSignature, SignError>(SignError::UnsupportedAlgorithm),
        KeyAlgorithm::Ed25519 => match material {
            SigningMaterial::Ed25519 { seed, public } => match ed25519_signature(seed@, public@, data) {
                Some(b) => is_signature(r, SignatureAlgorithm::Ed25519, b),
                None => r == Err::<AgentSignature, SignError>(SignError::SignFailed),
            },
            _ => r == Err::<AgentSignature, SignError>(SignError::SignFailed),
        },
        KeyAlgorithm::Rsa => match spec_rsa_hash(flags) {
            None => r == Err::<AgentSignature, SignError>(SignError::RsaHashRequired),
            Some(hash) => match material {
                SigningMaterial::Rsa { n, e, d, p, q } => if spec_significant_len(n@) < RSA_MIN_MODULUS_BYTES {
                    r == Err::<AgentSignature, SignError>(SignError::RsaPrepareFailed)
                } else {
                    match spec_rsa_signature(hash, n@, e@, d@, p@, q@, data) {
                        Ok(b) => is_signature(r, spec_rsa_signature_algorithm(hash), b),
                        Err(RsaFailure::Prepare) => r == Err::<AgentSignature, SignError>(SignError::RsaPrepareFailed),
                        Err(RsaFailure::Sign) => r == Err::<AgentSignature, SignError>(SignError::SignFailed),
                    }
                },
                _ => r == Err::<AgentSignature, SignError>(SignError::NotRsaKey),
            },
        },
    }
}

/// Signs `data` with one key whose signing algorithm is `algorithm` and whose key material is
/// `material`: Ed25519 with its key pair, RSA with the hash the flags ask for.
pub fn sign_with(algorithm: KeyAlgorithm, material: &SigningMaterial, data: &[u8], flags: u32) -> (r: Result<AgentSignature, SignError>)
    ensures
        spec_sign_outcome(algorithm, *material, flags, data@, r),
{
    match algorithm {
        KeyAlgorithm::Ed25519 => match material {
            SigningMaterial::Ed25519 { seed, public } => match ed25519_sign(seed, public, data) {
                Ok(bytes) => Ok(AgentSignature { algorithm: SignatureAlgorithm::Ed25519, bytes }),
                Err(_) => Err(SignError::SignFailed),
            },
            _ => Err(SignError::SignFailed),
        },
        KeyAlgorithm::Rsa => {
            let hash = match rsa_hash_for(flags) {
                Some(h) => h,
                None => return Err(SignError::RsaHashRequired),
            };
            let (n, e, d, p, q) = match material {
                SigningMaterial::Rsa { n, e, d, p, q } => (n, e, d, p, q),
                _ => return Err(SignError::NotRsaKey),
            };
            if significant_len(n.as_slice()) < RSA_MIN_MODULUS_BYTES {
                return Err(SignError::RsaPrepareFailed);
            }
            let (bytes, algorithm) = match hash {
                RsaHash::Sha256 => (
                    rsa_sign_sha256(n.as_slice(), e.as_slice(), d.as_slice(), p.as_slice(), q.as_slice(), data),
                    SignatureAlgorithm::RsaSha256,
                ),
                RsaHash::Sha512 => (
                    rsa_sign_sha512(n.as_slice(), e.as_slice(), d.as_slice(), p.as_slice(), q.as_slice(), data),
                    SignatureAlgorithm::RsaSha512,
                ),
            };
            match bytes {
                Ok(bytes) => Ok(AgentSignature { algorithm, bytes }),
                Err(RsaFailure::Prepare) => Err(SignError::RsaPrepareFailed),
                Err(RsaFailure::Sign) => Err(SignError::SignFailed),
            }
        },
        KeyAlgorithm::Unsupported => Err(SignError::UnsupportedAlgorithm),
    }
}

/// The size check of an RSA signature reads the modulus and nothing else. For RSA key material
/// and a request that names a SHA-2 hash, the answer is `RsaPrepareFailed` exactly when the
/// modulus has fewer than 256 significant bytes (2048 bits) or the components do not form a key;
/// a modulus of at least 256 significant bytes, such as one of 384 bytes whose first byte is not
/// zero, gets the PKCS#1 signature with that hash whenever the components sign, however long the
/// primes and exponents are.
pub proof fn law_rsa_size_refusal_reads_the_modulus(
    material: SigningMaterial,
    flags: u32,
    data: Seq<u8>,
    r: Result<AgentSignature, SignError>,
)
    requires
        material is Rsa,
        spec_rsa_hash(flags) is Some,
        spec_sign_outcome(KeyAlgorithm::Rsa, material, flags, data, r),
    ensures
        ({
            let hash = spec_rsa_hash(flags)->0;
            let (n, e, d, p, q) = (material->n@, material->e@, material->d@, material->p@, material->q@);
            &&& (r == Err::<AgentSignature, SignError>(SignError::RsaPrepareFailed)) <==> (spec_significant_len(n)
                < RSA_MIN_MODULUS_BYTES || spec_rsa_signature(hash, n, e, d, p, q, data) == Err::<Seq<u8>, RsaFailure>(
                RsaFailure::Prepare))
            &&& (n.len() >= RSA_MIN_MODULUS_BYTES && n[0] != 0) ==> spec_significant_len(n) >= RSA_MIN_MODULUS_BYTES
            &&& spec_significant_len(n) >= RSA_MIN_MODULUS_BYTES ==> (spec_rsa_signature(hash, n, e, d, p, q, data) matches Ok(b)
                ==> is_signature(r, spec_rsa_signature_algorithm(hash), b))
        }),
{
    let n = material->n@;
    if n.len() >= RSA_MIN_MODULUS_BYTES && n[0] != 0 {
        assert(spec_significant_len(n) == n.len());
    }
}

/// An extension reply to send: its name and its payload.
pub struct ExtensionReply {
    pub name: String,
    pub details: Vec<u8>,
}

/// Why an extension request failed.
#[derive(Debug)]
pub enum ExtensionError {
    /// The extension is not supported: a generic failure.
    Unsupported,
    /// A supported extension could not be applied: an extension failure.
    Refused,
    /// The reply could not be encoded.
    Encode(ProtoError),
}

/// Name of the extension-listing extension.
pub open spec fn spec_query_name() -> Seq<char> {
    "query"@
}

/// Name of the session-binding extension.
pub open spec fn spec_session_bind_name() -> Seq<char> {
    "session-bind@openssh.com"@
}

/// The extensions this agent supports, as the `query` extension reports them.
pub fn supported_extensions() -> (names: Vec<String>)
    ensures
        names@.len() == 2,
        names@[0]@ == spec_query_name(),
        names@[1]@ == spec_session_bind_name(),
{
    let mut names: Vec<String> = Vec::new();
    names.push(String::from_str("query"));
    names.push(String::from_str("session-bind@openssh.com"));
    names
}

/// Big-endian encoding of a 32-bit length.
pub open spec fn spec_be32(n: nat) -> Seq<u8> {
    seq![(n / 0x1000000 % 256) as u8, (n / 0x10000 % 256) as u8, (n / 0x100 % 256) as u8, (n % 256) as u8]
}

/// An SSH `string`: the byte length of the text's UTF-8 encoding, then those bytes.
pub open spec fn spec_ssh_string(s: Seq<char>) -> Seq<u8> {
    spec_be32(encode_utf8(s).len()) + encode_utf8(s)
}

/// The SSH strings of `names`, one after the other.
pub open spec fn spec_ssh_strings(names: Seq<Seq<char>>) -> Seq<u8>
    decreases names.len(),
{
    if names.len() == 0 {
        Seq::empty()
    } else {
        spec_ssh_strings(names.drop_last()) + spec_ssh_string(names.last())
    }
}

/// Payload of a `query` reply listing `names`: the byte length of the string list, then the list.
pub open spec fn spec_query_reply(names: Seq<Seq<char>>) -> Seq<u8> {
    spec_be32(spec_ssh_strings(names).len()) + spec_ssh_strings(names)
}

/// The texts of `names`.
pub open spec fn names_view(names: Seq<String>) -> Seq<Seq<char>> {
    names.map_values(|s: String| s@)
}

/// Encodes the payload of a `query` reply listing `names` (`Extension::new_message` of a
/// `QueryResponse`, whose list encodes as its byte length followed by each name as an SSH
/// string). Writing into a vector fails only when a length does not fit in 32 bits.
#[verifier::external_body]
fn query_reply(names: Vec<String>) -> (r: Result<Vec<u8>, ProtoError>)
    ensures
        spec_ssh_strings(names_view(names@)).len() + 4 <= u32::MAX ==> r is Ok,
        r matches Ok(b) ==> b@ == spec_query_reply(names_view(names@)),
{
    Extension::new_message(QueryResponse { extensions: names }).map(|ext| ext.details.into_bytes())
}

/// UTF-8 takes at most four bytes per character.
proof fn lemma_utf8_len_bound(s: Seq<char>)
    ensures
        encode_utf8(s).len() <= 4 * s.len(),
    decreases s.len(),
{
    if s.len() > 0 {
        lemma_utf8_len_bound(s.drop_first());
    }
}

/// The session identifier and forwarding flag that a session-bind payload decodes to
/// (`SessionBind::decode`), or `None` when the payload does not decode.
pub uninterp spec fn decoded_session_bind(details: Seq<u8>) -> Option<(Seq<u8>, bool)>;

/// Decodes a session-bind payload (`Unparsed::parse::<SessionBind>`), handing out its session
/// identifier and forwarding flag.
#[verifier::external_body]
fn decode_session_bind(details: &[u8]) -> (r: Option<(Vec<u8>, bool)>)
    ensures
        match r {
            Some((id, forwarding)) => decoded_session_bind(details@) == Some((id@, forwarding)),
            None => decoded_session_bind(details@) is None,
        },
{
    match Unparsed::from(details.to_vec()).parse::<SessionBind>() {
        Ok(bind) => Some((bind.session_id, bind.is_forwarding)),
        Err(_) => None,
    }
}

/// Whether a session-bind payload decodes and its server host key signed its session
/// identifier (`SessionBind::verify_signature`).
pub uninterp spec fn session_bind_verifies(details: Seq<u8>) -> bool;

/// Checks the host signature of a session-bind payload (`SessionBind::verify_signature` of the
/// decoded request); a payload that does not decode has no valid signature.
#[verifier::external_body]
fn session_bind_signature_valid(details: &[u8]) -> (r: bool)
    ensures
        r == session_bind_verifies(details@),
{
    match Unparsed::from(details.to_vec()).parse::<SessionBind>() {
        Ok(bind) => bind.verify_signature().is_ok(),
        Err(_) => false,
    }
}

/// Whether two public keys are equal (`KeyData`'s derived `PartialEq`, which compares the
/// variant and then every field of the key).
#[verifier::external_body]
fn same_public_key(a: &KeyData, b: &KeyData) -> (r: bool)
    ensures
        r == (*a == *b),
{
    a == b
}

/// Whether two texts are equal, character by character.
pub fn str_equal(a: &str, b: &str) -> (r: bool)
    ensures
        r == (a@ == b@),
{
    let mut ca: Vec<char> = Vec::new();
    for c in it: a.chars()
        invariant
            it.seq() == a@,
            ca@ == a@.take(it.index() as int),
    {
        ca.push(c);
        assert(a@.take(it.index() + 1) =~= a@.take(it.index() as int).push(c));
    }
    let mut cb: Vec<char> = Vec::new();
    for c in it: b.chars()
        invariant
            it.seq() == b@,
            cb@ == b@.take(it.index() as int),
    {
        cb.push(c);
        assert(b@.take(it.index() + 1) =~= b@.take(it.index() as int).push(c));
    }
    assert(ca@ =~= a@);
    assert(cb@ =~= b@);
    if ca.len() != cb.len() {
        return false;
    }
    let mut i: usize = 0;
    while i < ca.len()
        invariant
            ca@ == a@,
            cb@ == b@,
            ca@.len() == cb@.len(),
            i <= ca@.len(),
            forall|j: int| 0 <= j < i ==> ca@[j] == cb@[j],
        decreases ca@.len() - i,
    {
        if ca[i] != cb[i] {
            assert(ca@[i as int] != cb@[i as int]);
            return false;
        }
        i = i + 1;
    }
    assert(ca@ =~= cb@);
    true
}

fn bytes_equal(a: &Vec<u8>, b: &Vec<u8>) -> (r: bool)
    ensures
        r == (a@ == b@),
{
    crate::order::compare_bytes(a.as_slice(), b.as_slice()) == Cmp3::Equal
}

impl<P> ServiceSession<P> {
    /// The loaded snapshot is ordered, and the bindings keep their rules.
    pub open spec fn wf(&self) -> bool {
        &&& self.keys matches Some(k) ==> strictly_ascending(k@) && all_wf(k@)
        &&& bindings_wf(self.session_bindings@)
    }

    /// A session that loads from `providers`, with no keys loaded yet and no bindings.
    pub fn new(providers: Vec<P>) -> (s: ServiceSession<P>)
        ensures
            s.providers == providers,
            s.keys is None,
            s.session_bindings@.len() == 0,
            s.wf(),
    {
        ServiceSession { providers, keys: None, session_bindings: Vec::new() }
    }

    /// Whether the providers still have to be loaded for this session.
    pub fn needs_load(&self) -> (r: bool)
        ensures
            r == self.keys is None,
    {
        self.keys.is_none()
    }

    /// Installs the snapshot built from the keys that the providers loaded, in load order. A
    /// session loads at most once: a session that already has keys keeps them.
    pub fn load(&mut self, loaded: Vec<LoadedKey>)
        requires
            old(self).wf(),
        ensures
            final(self).wf(),
            final(self).providers == old(self).providers,
            final(self).session_bindings == old(self).session_bindings,
            old(self).keys is Some ==> final(self).keys == old(self).keys,
            old(self).keys is None ==> (final(self).keys matches Some(k) && snapshot_of_loaded(loaded@, k@)),
    {
        if self.keys.is_some() {
            return;
        }
        let ghost input = loaded@;
        let mut keys: Vec<LoadedKey> = Vec::new();
        let mut rest = crate::vecs::reversed(loaded);
        while rest.len() > 0
            invariant
                keys@.len() + rest@.len() == input.len(),
                rest@ == input.subrange(keys@.len() as int, input.len() as int).reverse(),
                forall|i: int| 0 <= i < keys@.len() ==> same_identity(#[trigger] keys@[i], input[i]),
                all_wf(keys@),
            decreases rest@.len(),
        {
            let ghost n: int = keys@.len() as int;
            let k = rest.pop().unwrap();
            assert(k == input[n as int]);
            keys.push(k.reordered());
            assert(rest@ =~= input.subrange(n + 1 as int, input.len() as int).reverse());
        }
        let ghost flat = keys@;
        let snapshot = snapshot_keys(keys);
        self.keys = Some(snapshot);
        assert(flat.len() == input.len() && (forall|i: int| 0 <= i < flat.len() ==> same_identity(#[trigger] flat[i], input[i]))
            && all_wf(flat) && is_snapshot_of(flat, self.keys->0@));
    }

    /// The identities of the snapshot, in snapshot order: each key's public key and comment.
    pub fn request_identities(&self) -> (ids: Vec<PublishedIdentity>)
        requires
            self.keys is Some,
        ensures
            identities_of(self.keys->0@, ids@),
    {
        let keys = self.keys.as_ref().unwrap();
        let mut ids: Vec<PublishedIdentity> = Vec::new();
        let mut i: usize = 0;
        while i < keys.len()
            invariant
                i <= keys@.len(),
                ids@.len() == i,
                forall|j: int| 0 <= j < i ==> (#[trigger] ids@[j]).pubkey == keys@[j].public
                    && ids@[j].comment@ == keys@[j].comment@,
            decreases keys@.len() - i,
        {
            ids.push(PublishedIdentity { pubkey: keys[i].public.clone(), comment: keys[i].comment.clone() });
            i = i + 1;
        }
        ids
    }

    /// Index of the first snapshot key whose public key is `pubkey`, if any.
    fn find_key(keys: &Vec<LoadedKey>, pubkey: &KeyData) -> (r: Option<usize>)
        ensures
            r matches Some(i) ==> i < keys@.len() && keys@[i as int].public == *pubkey,
            r is None ==> !holds_public_key(keys@, *pubkey),
    {
        let mut i: usize = 0;
        while i < keys.len()
            invariant
                i <= keys@.len(),
                forall|j: int| 0 <= j < i ==> #[trigger] keys@[j].public != *pubkey,
            decreases keys@.len() - i,
        {
            if same_public_key(&keys[i].public, pubkey) {
                return Some(i);
            }
            i = i + 1;
        }
        None
    }

    /// Records a session binding unless its session identifier was bound before or the
    /// connection is already bound for authentication.
    pub fn bind_session(&mut self, session_id: Vec<u8>, is_forwarding: bool) -> (r: Result<(), BindRefusal>)
        requires
            old(self).wf(),
        ensures
            final(self).wf(),
            final(self).keys == old(self).keys,
            has_session(old(self).session_bindings@, session_id@) ==> r == Err::<(), BindRefusal>(BindRefusal::DuplicateSession),
            !has_session(old(self).session_bindings@, session_id@) && bound_for_authentication(old(self).session_bindings@)
                ==> r == Err::<(), BindRefusal>(BindRefusal::AlreadyBoundForAuthentication),
            r is Err ==> final(self).session_bindings@ == old(self).session_bindings@,
            r is Ok <==> !has_session(old(self).session_bindings@, session_id@) && !bound_for_authentication(old(self).session_bindings@),
            r is Ok ==> final(self).session_bindings@.len() == old(self).session_bindings@.len() + 1
                && final(self).session_bindings@.take(old(self).session_bindings@.len() as int) == old(self).session_bindings@
                && final(self).session_bindings@.last().session_id@ == session_id@
                && final(self).session_bindings@.last().is_forwarding == is_forwarding,
    {
        let n = self.session_bindings.len();
        let mut i: usize = 0;
        while i < n
            invariant
                *self == *old(self),
                old(self).wf(),
                n == self.session_bindings@.len(),
                i <= n,
                forall|j: int| 0 <= j < i ==> #[trigger] self.session_bindings@[j].session_id@ != session_id@,
            decreases n - i,
        {
            if bytes_equal(&self.session_bindings[i].session_id, &session_id) {
                return Err(BindRefusal::DuplicateSession);
            }
            i = i + 1;
        }
        let mut i: usize = 0;
        while i < n
            invariant
                *self == *old(self),
                old(self).wf(),
                n == self.session_bindings@.len(),
                i <= n,
                forall|j: int| 0 <= j < n ==> #[trigger] self.session_bindings@[j].session_id@ != session_id@,
                forall|j: int| 0 <= j < i ==> #[trigger] self.session_bindings@[j].is_forwarding,
            decreases n - i,
        {
            if !self.session_bindings[i].is_forwarding {
                return Err(BindRefusal::AlreadyBoundForAuthentication);
            }
            i = i + 1;
        }
        let ghost old_b = self.session_bindings@;
        self.session_bindings.push(SessionBinding { session_id, is_forwarding });
        assert(self.session_bindings@.take(n as int) =~= old_b);
        proof {
            let b = self.session_bindings@;
            assert forall|i: int, j: int| 0 <= i < j < b.len() implies #[trigger] b[i].session_id@ != #[trigger] b[j].session_id@ by {
                if j == n {
                    assert(b[i] == old_b[i]);
                } else {
                    assert(b[i] == old_b[i] && b[j] == old_b[j]);
                }
            }
            assert forall|i: int| 0 <= i < b.len() - 1 implies #[trigger] b[i].is_forwarding by {
                assert(b[i] == old_b[i]);
            }
        }
        Ok(())
    }

    /// Handles an extension request named `name` whose payload is `details`.
    ///
    /// `query` is answered with the list of supported extensions. A `session-bind@openssh.com`
    /// payload is recorded exactly when it decodes, its host signature verifies, its session
    /// was not bound before and the connection was not yet bound for authentication; any other
    /// outcome is an extension failure. Every other name is unsupported.
    pub fn extension(&mut self, name: &str, details: &[u8]) -> (r: Result<Option<ExtensionReply>, ExtensionError>)
        requires
            old(self).wf(),
        ensures
            final(self).wf(),
            final(self).keys == old(self).keys,
            r is Err ==> final(self).session_bindings@ == old(self).session_bindings@,
            name@ == spec_query_name() ==> final(self).session_bindings@ == old(self).session_bindings@
                && (r matches Ok(Some(reply)) && reply.name@ == spec_query_name()
                    && reply.details@ == spec_query_reply(seq![spec_query_name(), spec_session_bind_name()])),
            name@ == spec_session_bind_name() ==> (r is Ok <==> (decoded_session_bind(details@) matches Some((id, _))
                && session_bind_verifies(details@)
                && !has_session(old(self).session_bindings@, id) && !bound_for_authentication(old(self).session_bindings@))),
            name@ == spec_session_bind_name() && r is Ok ==> (decoded_session_bind(details@) matches Some((id, forwarding))
                && r == Ok::<Option<ExtensionReply>, ExtensionError>(None)
                && records_binding(old(self).session_bindings@, final(self).session_bindings@, id, forwarding)),
            name@ == spec_session_bind_name() ==> (r matches Err(e) ==> e is Refused),
            name@ != spec_query_name() && name@ != spec_session_bind_name() ==> final(self).session_bindings@ == old(self).session_bindings@
                && (r matches Err(e) && e is Unsupported),
    {
        proof {
            reveal_strlit("query");
            reveal_strlit("session-bind@openssh.com");
            assert(spec_query_name().len() != spec_session_bind_name().len());
        }
        if str_equal(name, "query") {
            let names = supported_extensions();
            proof {
                let nv = names_view(names@);
                assert(nv =~= seq![spec_query_name(), spec_session_bind_name()]);
                lemma_utf8_len_bound(spec_query_name());
                lemma_utf8_len_bound(spec_session_bind_name());
                reveal_with_fuel(spec_ssh_strings, 3);
                assert(nv.drop_last() =~= seq![spec_query_name()]);
                assert(nv.drop_last().drop_last() =~= Seq::<Seq<char>>::empty());
            }
            return match query_reply(names) {
                Ok(details) => Ok(Some(ExtensionReply { name: String::from_str("query"), details })),
                Err(e) => Err(ExtensionError::Encode(e)),
            };
        }
        if str_equal(name, "session-bind@openssh.com") {
            let (session_id, is_forwarding) = match decode_session_bind(details) {
                Some(decoded) => decoded,
                None => return Err(ExtensionError::Refused),
            };
            if !session_bind_signature_valid(details) {
                return Err(ExtensionError::Refused);
            }
            return match self.bind_session(session_id, is_forwarding) {
                Ok(()) => Ok(None),
                Err(_) => Err(ExtensionError::Refused),
            };
        }
        Err(ExtensionError::Unsupported)
    }

    /// Signs `data` with the snapshot key whose public key is `pubkey`; fails with
    /// `NoMatchingIdentity` exactly when no key of the snapshot has it.
    pub fn sign(&self, pubkey: &KeyData, data: &[u8], flags: u32) -> (r: Result<AgentSignature, SignError>)
        requires
            self.keys is Some,
        ensures
            (r == Err::<AgentSignature, SignError>(SignError::NoMatchingIdentity)) <==> !holds_public_key(self.keys->0@, *pubkey),
            holds_public_key(self.keys->0@, *pubkey) ==> exists|i: int| 0 <= i < self.keys->0@.len()
                && #[trigger] self.keys->0@[i].public == *pubkey
                && spec_sign_outcome(self.keys->0@[i].algorithm, self.keys->0@[i].material, flags, data@, r),
    {
        let keys = self.keys.as_ref().unwrap();
        match Self::find_key(keys, pubkey) {
            Some(i) => {
                let r = sign_with(keys[i].algorithm, &keys[i].material, data, flags);
                assert(spec_sign_outcome(keys@[i as int].algorithm, keys@[i as int].material, flags, data@, r));
                assert(r != Err::<AgentSignature, SignError>(SignError::NoMatchingIdentity)) by {
                    match keys@[i as int].algorithm {
                        KeyAlgorithm::Rsa => { if spec_rsa_hash(flags) is Some {} },
                        _ => {},
                    }
                }
                r
            },
            None => Err(SignError::NoMatchingIdentity),
        }
    }
}

/// Adds the keys that the provider at `index` loaded after those of the providers before it;
/// a failed load ends the session's load with that provider's index and error.
pub fn collect_provider_keys<T, E>(keys: &mut Vec<T>, index: usize, outcome: Result<Vec<T>, E>) -> (r: Result<(), (usize, E)>)
    ensures
        match outcome {
            Ok(loaded) => r is Ok && final(keys)@ == old(keys)@ + loaded@,
            Err(e) => r == Err::<(), (usize, E)>((index, e)) && final(keys)@ == old(keys)@,
        },
{
    match outcome {
        Ok(loaded) => {
            let mut loaded = loaded;
            keys.append(&mut loaded);
            Ok(())
        },
        Err(e) => Err((index, e)),
    }
}

/// `snapshot` is the snapshot of the keys `loaded`, each with its order key computed from its
/// fields.
pub open spec fn snapshot_of_loaded(loaded: Seq<LoadedKey>, snapshot: Seq<LoadedKey>) -> bool {
    exists|keys: Seq<LoadedKey>| keys.len() == loaded.len() && (forall|i: int| 0 <= i < keys.len() ==> same_identity(#[trigger] keys[i], loaded[i]))
        && all_wf(keys) && is_snapshot_of(keys, snapshot)
}

/// Whether a key of the snapshot `keys` has the public key `pubkey`.
pub open spec fn holds_public_key(keys: Seq<LoadedKey>, pubkey: KeyData) -> bool {
    exists|i: int| 0 <= i < keys.len() && #[trigger] keys[i].public == pubkey
}

/// `ids` are the identities published for the snapshot `keys`: one per key, in order, each
/// with the key's public key and comment.
pub open spec fn identities_of(keys: Seq<LoadedKey>, ids: Seq<PublishedIdentity>) -> bool {
    &&& ids.len() == keys.len()
    &&& forall|i: int| 0 <= i < ids.len() ==> (#[trigger] ids[i]).pubkey == keys[i].public
        && ids[i].comment@ == keys[i].comment@
}

/// Every identity that a session publishes can be signed with: the public key of each identity
/// that `request_identities` lists is held by the snapshot, so `sign` with it never answers
/// `NoMatchingIdentity`.
pub proof fn law_published_identities_are_signable<P>(s: ServiceSession<P>, ids: Seq<PublishedIdentity>, i: int)
    requires
        s.keys is Some,
        identities_of(s.keys->0@, ids),
        0 <= i < ids.len(),
    ensures
        holds_public_key(s.keys->0@, ids[i].pubkey),
{
    assert(s.keys->0@[i].public == ids[i].pubkey);
}

/// A session's snapshot publishes each public key once: two published identities never carry
/// the same public-key fields.
pub proof fn law_published_identities_are_distinct<P>(s: ServiceSession<P>, i: int, j: int)
    requires
        s.wf(),
        s.keys is Some,
        0 <= i < j < s.keys->0@.len(),
    ensures
        parts_order(s.keys->0@[i].parts) != parts_order(s.keys->0@[j].parts),
{
    let k = s.keys->0@;
    assert(k[i].wf() && k[j].wf());
    assert(crate::order::fields_lt(k[i].order@, k[j].order@));
    crate::order::lemma_fields_lt_irreflexive(k[i].order@);
}

/// Writing a comment onto a key changes nothing that signing or publishing reads: a key that
/// `LoadedKey::with_comment` gives, which keeps the public key, fields, algorithm and key
/// material of the key it was given, is published under the same public key and order, and
/// answers every sign request exactly as that key does.
pub proof fn law_commented_key_signs_alike(
    k: LoadedKey,
    commented: LoadedKey,
    flags: u32,
    data: Seq<u8>,
    r: Result<AgentSignature, SignError>,
)
    requires
        commented.public == k.public,
        commented.parts == k.parts,
        commented.algorithm == k.algorithm,
        commented.material == k.material,
    ensures
        parts_order(commented.parts) == parts_order(k.parts),
        spec_sign_outcome(commented.algorithm, commented.material, flags, data, r) == spec_sign_outcome(
            k.algorithm,
            k.material,
            flags,
            data,
            r,
        ),
{
}

} // verus!
