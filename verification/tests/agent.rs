use keyring::agent::{
    collect_provider_keys, rsa_hash_for, AgentSignature, SignatureAlgorithm, str_equal, supported_extensions, AgentSetupError, BindRefusal, ExtensionError, RsaHash, ServiceAgent,
    ServiceSession, SignError,
};
use keyring::keys::{LoadedKey, snapshot_keys};
use signature::Signer;
use ssh_agent_lib::proto::extension::{QueryResponse, SessionBind};
use ssh_agent_lib::proto::Extension;
use ssh_agent_lib::ssh_encoding::Encode;
use ssh_key::private::Ed25519Keypair;
use ssh_key::PrivateKey;
use ssh_key::private::{KeypairData, RsaKeypair};
use ssh_key::Mpint;
use rsa::traits::{PrivateKeyParts, PublicKeyParts};

fn ed25519(name: &str, seed: u8) -> PrivateKey {
    let mut key = PrivateKey::from(Ed25519Keypair::from_seed(&[seed; 32]));
    key.set_comment(name);
    key
}

fn ssh_signature(sig: &AgentSignature) -> ssh_key::Signature {
    let algorithm = match sig.algorithm {
        SignatureAlgorithm::Ed25519 => ssh_key::Algorithm::Ed25519,
        SignatureAlgorithm::RsaSha256 => ssh_key::Algorithm::Rsa { hash: Some(ssh_key::HashAlg::Sha256) },
        SignatureAlgorithm::RsaSha512 => ssh_key::Algorithm::Rsa { hash: Some(ssh_key::HashAlg::Sha512) },
    };
    ssh_key::Signature::new(algorithm, sig.bytes.clone()).unwrap()
}

fn loaded_session(keys: Vec<PrivateKey>) -> ServiceSession<()> {
    let agent = ServiceAgent::new(vec![()]).unwrap();
    let mut session = agent.new_session();
    assert_eq!(session.providers.len(), 1);
    assert!(session.needs_load());
    session.load(keys.into_iter().map(LoadedKey::new).collect());
    assert!(!session.needs_load());
    session
}

#[test]
fn an_agent_needs_a_provider() {
    let err = ServiceAgent::<()>::new(vec![]).err().unwrap();
    assert_eq!(err, AgentSetupError::NoProviders);
    assert_eq!(err.message(), "at least one provider must be configured");
}

#[test]
fn identities_are_listed_in_public_key_order() {
    let session = loaded_session(vec![ed25519("zeta", 8), ed25519("alpha", 7)]);
    let ids = session.request_identities();
    assert_eq!(ids.iter().map(|i| i.comment.as_str()).collect::<Vec<_>>(), vec!["zeta", "alpha"]);
    let reversed = loaded_session(vec![ed25519("alpha", 7), ed25519("zeta", 8)]);
    let again = reversed.request_identities();
    assert_eq!(again.iter().map(|i| i.comment.as_str()).collect::<Vec<_>>(), vec!["zeta", "alpha"]);
    assert_eq!(ids[0].pubkey, again[0].pubkey);
}

#[test]
fn later_duplicates_replace_earlier_ones_and_empty_comments_stay() {
    let session = loaded_session(vec![ed25519("first", 7), ed25519("", 9), ed25519("second", 7)]);
    let ids = session.request_identities();
    assert_eq!(ids.len(), 2);
    let comments: Vec<_> = ids.iter().map(|i| i.comment.clone()).collect();
    assert!(comments.contains(&"second".to_owned()));
    assert!(comments.contains(&String::new()));
    assert!(!comments.contains(&"first".to_owned()));
    assert!(loaded_session(vec![]).request_identities().is_empty());
}

#[test]
fn a_session_loads_once() {
    let mut session = loaded_session(vec![ed25519("a", 1)]);
    session.load(vec![LoadedKey::new(ed25519("b", 2)), LoadedKey::new(ed25519("c", 3))]);
    assert_eq!(session.request_identities().len(), 1);
}

#[test]
fn signs_with_a_known_key_and_rejects_an_unknown_one() {
    let session = loaded_session(vec![ed25519("signer", 7)]);
    let ids = session.request_identities();
    let sig = session.sign(&ids[0].pubkey, b"payload", 0).unwrap();
    assert_eq!(sig.algorithm, SignatureAlgorithm::Ed25519);
    let expected: ssh_key::Signature = ed25519("signer", 7).try_sign(b"payload").unwrap();
    assert_eq!(sig.bytes, expected.as_bytes());
    assert!(signature::Verifier::verify(&ids[0].pubkey, b"payload", &ssh_signature(&sig)).is_ok());
    let unknown = ed25519("x", 9).public_key().key_data().clone();
    let err = session.sign(&unknown, b"payload", 0).unwrap_err();
    assert_eq!(err, SignError::NoMatchingIdentity);
    assert_eq!(err.message(), "no published identity matched the requested public key blob");
}

#[test]
fn rsa_hash_flags() {
    assert_eq!(rsa_hash_for(2), Some(RsaHash::Sha256));
    assert_eq!(rsa_hash_for(6), Some(RsaHash::Sha256));
    assert_eq!(rsa_hash_for(4), Some(RsaHash::Sha512));
    assert_eq!(rsa_hash_for(0), None);
    assert_eq!(rsa_hash_for(1), None);
    assert_eq!(SignError::RsaHashRequired.message(), "identity only supports rsa-sha2-256 and rsa-sha2-512");
}

#[test]
fn session_binding_rules() {
    let mut session = loaded_session(vec![]);
    assert_eq!(session.bind_session(vec![1], true), Ok(()));
    assert_eq!(session.bind_session(vec![1], true), Err(BindRefusal::DuplicateSession));
    assert_eq!(session.bind_session(vec![2], false), Ok(()));
    assert_eq!(session.bind_session(vec![3], true), Err(BindRefusal::AlreadyBoundForAuthentication));
    assert_eq!(session.bind_session(vec![2], true), Err(BindRefusal::DuplicateSession));
    assert_eq!(session.session_bindings.len(), 2);
}

#[test]
fn extensions() {
    let mut session = loaded_session(vec![]);
    let names = supported_extensions();
    assert_eq!(names, vec!["query".to_owned(), "session-bind@openssh.com".to_owned()]);
    let reply = session.extension("query", &[]).unwrap().unwrap();
    assert_eq!(reply.name, "query");
    let mut expected = vec![0u8, 0, 0, 37, 0, 0, 0, 5];
    expected.extend_from_slice(b"query");
    expected.extend_from_slice(&[0, 0, 0, 24]);
    expected.extend_from_slice(b"session-bind@openssh.com");
    assert_eq!(reply.details, expected);
    let message = Extension { name: reply.name, details: reply.details.into() };
    let listed = message.parse_message::<QueryResponse>().unwrap().unwrap();
    assert_eq!(listed.extensions, names);
    assert!(matches!(session.extension("foo@example.com", &[]), Err(ExtensionError::Unsupported)));
    assert!(matches!(session.extension("session-bind@openssh.com", &[0u8, 1, 2]), Err(ExtensionError::Refused)));
    assert!(session.session_bindings.is_empty());
    assert!(str_equal("query", "query"));
    assert!(!str_equal("query", "quer"));
}

#[test]
fn snapshot_of_loaded_keys() {
    let keys = vec![LoadedKey::new(ed25519("b", 2)), LoadedKey::new(ed25519("a", 1)), LoadedKey::new(ed25519("c", 2))];
    let snapshot = snapshot_keys(keys);
    assert_eq!(snapshot.len(), 2);
    assert!(snapshot.iter().any(|k| k.comment == "c"));
    assert!(!snapshot.iter().any(|k| k.comment == "b"));
}

fn session_bind_payload(host: &PrivateKey, session_id: &[u8], signed: &[u8], is_forwarding: bool) -> Vec<u8> {
    let signature: ssh_key::Signature = host.try_sign(signed).unwrap();
    let bind = SessionBind {
        host_key: host.public_key().key_data().clone(),
        session_id: session_id.to_vec(),
        signature,
        is_forwarding,
    };
    let mut details = Vec::new();
    bind.encode(&mut details).unwrap();
    details
}

#[test]
fn a_signed_session_bind_is_recorded_once() {
    let host = ed25519("host", 5);
    let mut session = loaded_session(vec![]);
    let forwarded = session_bind_payload(&host, &[9, 9], &[9, 9], true);
    assert!(matches!(session.extension("session-bind@openssh.com", &forwarded), Ok(None)));
    let details = session_bind_payload(&host, &[1, 2, 3, 4], &[1, 2, 3, 4], false);
    assert!(matches!(session.extension("session-bind@openssh.com", &details), Ok(None)));
    assert_eq!(session.session_bindings.len(), 2);
    assert_eq!(session.session_bindings[1].session_id, vec![1, 2, 3, 4]);
    assert!(!session.session_bindings[1].is_forwarding);
    assert!(matches!(session.extension("session-bind@openssh.com", &details), Err(ExtensionError::Refused)));
    let later = session_bind_payload(&host, &[5], &[5], true);
    assert!(matches!(session.extension("session-bind@openssh.com", &later), Err(ExtensionError::Refused)));
    assert_eq!(session.session_bindings.len(), 2);
}

#[test]
fn a_session_bind_with_a_bad_signature_is_refused() {
    let host = ed25519("host", 5);
    let mut session = loaded_session(vec![]);
    let forged = session_bind_payload(&host, &[1, 2, 3], &[7, 7, 7], false);
    assert!(matches!(session.extension("session-bind@openssh.com", &forged), Err(ExtensionError::Refused)));
    assert!(session.session_bindings.is_empty());
}

/// An RSA key whose primes are the Mersenne primes 2^p_exp - 1 and 2^q_exp - 1.
fn mersenne_rsa_key(p_exp: usize, q_exp: usize, comment: &str) -> PrivateKey {
    let one = rsa::BigUint::from(1u32);
    let p = (one.clone() << p_exp) - &one;
    let q = (one.clone() << q_exp) - &one;
    let key = rsa::RsaPrivateKey::from_p_q(p, q, rsa::BigUint::from(65537u32)).unwrap();
    let mpint = |x: &rsa::BigUint| Mpint::from_positive_bytes(&x.to_bytes_be()).unwrap();
    let keypair = RsaKeypair {
        public: ssh_key::public::RsaPublicKey { e: mpint(key.e()), n: mpint(key.n()) },
        private: ssh_key::private::RsaPrivateKey {
            d: mpint(key.d()),
            iqmp: mpint(&key.crt_coefficient().unwrap()),
            p: mpint(&key.primes()[0]),
            q: mpint(&key.primes()[1]),
        },
    };
    PrivateKey::new(KeypairData::Rsa(keypair), comment).unwrap()
}

#[test]
fn signs_with_rsa_using_the_requested_sha2_hash() {
    let key = mersenne_rsa_key(2203, 521, "rsa");
    let public = key.public_key().key_data().clone();
    let session = loaded_session(vec![key]);
    let sha256 = session.sign(&public, b"payload", 2).unwrap();
    assert_eq!(sha256.algorithm, SignatureAlgorithm::RsaSha256);
    assert_eq!(ssh_signature(&sha256).algorithm().as_str(), "rsa-sha2-256");
    assert!(signature::Verifier::verify(&public, b"payload", &ssh_signature(&sha256)).is_ok());
    let both = session.sign(&public, b"payload", 6).unwrap();
    assert_eq!(both.algorithm, SignatureAlgorithm::RsaSha256);
    assert_eq!(both.bytes, sha256.bytes);
    let sha512 = session.sign(&public, b"payload", 4).unwrap();
    assert_eq!(sha512.algorithm, SignatureAlgorithm::RsaSha512);
    assert!(signature::Verifier::verify(&public, b"payload", &ssh_signature(&sha512)).is_ok());
    assert!(signature::Verifier::verify(&public, b"payload", &ssh_signature(&sha256)).is_ok());
    assert_eq!(session.sign(&public, b"payload", 0).unwrap_err(), SignError::RsaHashRequired);
}

#[test]
fn refuses_an_undersized_rsa_key() {
    let key = mersenne_rsa_key(607, 521, "small");
    let public = key.public_key().key_data().clone();
    let session = loaded_session(vec![key]);
    assert_eq!(session.sign(&public, b"payload", 2).unwrap_err(), SignError::RsaPrepareFailed);
}

#[test]
fn provider_keys_are_collected_in_order_until_a_failure() {
    let mut keys = Vec::new();
    assert_eq!(collect_provider_keys::<PrivateKey, &str>(&mut keys, 0, Ok(vec![ed25519("a", 1)])), Ok(()));
    assert_eq!(collect_provider_keys::<PrivateKey, &str>(&mut keys, 1, Ok(vec![ed25519("b", 2), ed25519("c", 3)])), Ok(()));
    assert_eq!(keys.iter().map(|k| k.comment().to_owned()).collect::<Vec<_>>(), vec!["a", "b", "c"]);
    assert_eq!(collect_provider_keys(&mut keys, 2, Err("offline")), Err((2, "offline")));
    assert_eq!(keys.len(), 3);
}
