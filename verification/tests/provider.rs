use keyring::models::{BitwardenCipher, BitwardenCipherSshKey, BitwardenProfile, BitwardenSyncResponse};
use keyring::provider::{
    cipher_candidate, discover, finish_identity, identity_comment, sync_contents, FetchError, IdentityError,
};
use keyring::keys::{KeyAlgorithm, LoadedKey};
use ssh_key::private::Ed25519Keypair;
use ssh_key::{LineEnding, PrivateKey};

const ID: u128 = 0x67e5_5044_10b1_426f_9247_bb68_0e5f_e0c8;

fn ssh_cipher() -> BitwardenCipher {
    BitwardenCipher {
        id: Some(ID),
        organization_id: None,
        cipher_type: Some(5),
        name: Some("enc-name".to_owned()),
        deleted_date: None,
        archived_date: None,
        key: None,
        ssh_key: Some(BitwardenCipherSshKey { private_key: Some("enc-key".to_owned()) }),
    }
}

fn openssh_text(seed: u8) -> String {
    PrivateKey::from(Ed25519Keypair::from_seed(&[seed; 32])).to_openssh(LineEnding::LF).unwrap().to_string()
}

#[test]
fn only_live_ssh_key_items_are_candidates() {
    assert_eq!(cipher_candidate(&ssh_cipher()), Some(ID));
    let mut c = ssh_cipher();
    c.archived_date = Some("2026-08-11T00:00:00Z".to_owned());
    assert_eq!(cipher_candidate(&c), None);
    let mut c = ssh_cipher();
    c.deleted_date = Some("2026-08-11T00:00:00Z".to_owned());
    assert_eq!(cipher_candidate(&c), None);
    let mut c = ssh_cipher();
    c.deleted_date = Some(" ".to_owned());
    assert_eq!(cipher_candidate(&c), Some(ID));
    let mut c = ssh_cipher();
    c.cipher_type = Some(1);
    assert_eq!(cipher_candidate(&c), None);
    let mut c = ssh_cipher();
    c.ssh_key = None;
    assert_eq!(cipher_candidate(&c), None);
    let mut c = ssh_cipher();
    c.id = None;
    assert_eq!(cipher_candidate(&c), None);
}

#[test]
fn comments_fall_back_to_the_cipher_id() {
    assert_eq!(identity_comment(Some("  work laptop "), ID), "work laptop");
    assert_eq!(identity_comment(Some("   "), ID), "bitwarden:67e55044-10b1-426f-9247-bb680e5fe0c8");
    assert_eq!(identity_comment(None, 0), "bitwarden:00000000-0000-0000-0000-000000000000");
}

#[test]
fn decrypted_items_become_identities() {
    let key = finish_identity(ID, Some(" deploy ".to_owned()), Some(openssh_text(7))).unwrap().unwrap();
    assert_eq!(key.comment, "deploy");
    assert_eq!(key.key.comment(), "deploy");
    assert_eq!(key.key.algorithm().as_str(), "ssh-ed25519");
    assert_eq!(key.algorithm, KeyAlgorithm::Ed25519);
    let key = finish_identity(ID, None, Some(openssh_text(7))).unwrap().unwrap();
    assert_eq!(key.comment, "bitwarden:67e55044-10b1-426f-9247-bb680e5fe0c8");
    assert_eq!(key.key.comment(), "bitwarden:67e55044-10b1-426f-9247-bb680e5fe0c8");
    assert!(finish_identity(ID, None, None).unwrap().is_none());
    assert_eq!(
        finish_identity(ID, None, Some("garbage".to_owned())).unwrap_err(),
        IdentityError::InvalidPrivateKey(ID)
    );
}

#[test]
fn discovery_keeps_parsed_keys_in_order_and_may_be_empty() {
    let a = PrivateKey::from(Ed25519Keypair::from_seed(&[1; 32]));
    let b = PrivateKey::from(Ed25519Keypair::from_seed(&[2; 32]));
    let outcomes: Vec<Result<Option<LoadedKey>, &str>> =
        vec![Ok(Some(LoadedKey::new(a.clone()))), Ok(None), Err("bad"), Ok(Some(LoadedKey::new(b.clone())))];
    let found: Vec<PrivateKey> = discover(outcomes).into_iter().map(|k| k.key).collect();
    assert_eq!(found, vec![a, b]);
    assert!(discover::<&str>(vec![Ok(None), Err("bad")]).is_empty());
}

#[test]
fn sync_responses_need_a_profile() {
    let missing = BitwardenSyncResponse { profile: None, ciphers: Some(vec![ssh_cipher()]) };
    assert_eq!(sync_contents(missing).unwrap_err(), FetchError::MissingProfile);
    let no_ciphers = BitwardenSyncResponse { profile: Some(BitwardenProfile { organizations: None }), ciphers: None };
    let (_, ciphers) = sync_contents(no_ciphers).unwrap();
    assert!(ciphers.is_empty());
}
