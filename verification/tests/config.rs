use keyring::config::{
    validate_bitwarden_config, Args, BitwardenProviderConfig, Config, DummyProvider, DummyProviderConfig, ProviderError,
    ProviderSpec,
};
use keyring::keys::KeyAlgorithm;
use ssh_key::private::Ed25519Keypair;
use ssh_key::PrivateKey;

fn bitwarden(name: &str) -> BitwardenProviderConfig {
    BitwardenProviderConfig {
        name: name.to_owned(),
        api_url: "https://api.bitwarden.example".to_owned(),
        identity_url: "https://identity.bitwarden.example".to_owned(),
        client_id: "client-id".to_owned(),
        client_secret: "super-secret".to_owned(),
        password: "master-password".to_owned(),
    }
}

#[test]
fn debug_text_redacts_secrets() {
    let text = bitwarden("vault").debug_text();
    assert!(text.contains("BitwardenProviderConfig"));
    assert!(text.contains("name: \"vault\""));
    assert!(text.contains("client_secret: \"***\""));
    assert!(text.contains("password: \"***\""));
    assert!(!text.contains("super-secret"));
    assert!(!text.contains("master-password"));
}

#[test]
fn blank_provider_names_are_refused() {
    assert_eq!(
        DummyProvider::try_from(DummyProviderConfig { name: "   ".to_owned() }).err(),
        Some(ProviderError::BlankDummyName)
    );
    assert_eq!(ProviderError::BlankDummyName.message(), "dummy provider name must not be empty");
    assert_eq!(validate_bitwarden_config(&bitwarden(" ")), Err(ProviderError::BlankBitwardenName));
    assert_eq!(ProviderError::BlankBitwardenName.message(), "bitwarden provider name must not be empty");
    assert_eq!(validate_bitwarden_config(&bitwarden("vault")), Ok(()));
}

#[test]
fn dummy_provider_publishes_one_deterministic_ed25519_key() {
    let provider = DummyProvider::try_from(DummyProviderConfig { name: "local".to_owned() }).unwrap();
    assert_eq!(provider.seed, [7u8; 32]);
    let keys = provider.load();
    assert_eq!(keys.len(), 1);
    assert_eq!(keys[0].algorithm, KeyAlgorithm::Ed25519);
    assert_eq!(keys[0].key.algorithm().as_str(), "ssh-ed25519");
    assert_eq!(keys[0].key, PrivateKey::from(Ed25519Keypair::from_seed(&[7u8; 32])));
    assert_eq!(keys[0].public, *keys[0].key.public_key().key_data());
    assert_eq!(keys[0].comment, "");
    assert_eq!(provider.load()[0].key, keys[0].key);
    let other = DummyProvider::try_from(DummyProviderConfig { name: "other".to_owned() }).unwrap();
    assert_eq!(other.load()[0].key, keys[0].key);
}

#[test]
fn providers_are_built_in_declaration_order() {
    let config = Config {
        dummy: vec![DummyProviderConfig { name: "local".to_owned() }],
        bitwarden: vec![bitwarden("vault"), bitwarden("team")],
    };
    let providers = config.providers().unwrap();
    assert_eq!(providers.len(), 3);
    assert!(matches!(providers[0], ProviderSpec::Dummy(_)));
    match &providers[2] {
        ProviderSpec::Bitwarden(c) => assert_eq!(c.name, "team"),
        ProviderSpec::Dummy(_) => panic!("expected bitwarden"),
    }
    let bad = Config { dummy: vec![], bitwarden: vec![bitwarden("vault"), bitwarden("")] };
    assert_eq!(bad.providers().err(), Some(ProviderError::BlankBitwardenName));
    let both = Config { dummy: vec![DummyProviderConfig { name: "".to_owned() }], bitwarden: vec![bitwarden("")] };
    assert_eq!(both.providers().err(), Some(ProviderError::BlankDummyName));
}

#[test]
fn arguments_default_the_socket_path() {
    let args = Args::new("./keyring-rs.toml".to_owned(), None);
    assert_eq!(args.path, "/tmp/keyring.sock");
    let args = Args::new("./keyring-rs.toml".to_owned(), Some("/tmp/keyring-rs.sock".to_owned()));
    assert_eq!(args.config, "./keyring-rs.toml");
    assert_eq!(args.path, "/tmp/keyring-rs.sock");
}
