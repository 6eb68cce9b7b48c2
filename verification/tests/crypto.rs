use keyring::crypto::{
    check_user_key_algorithm, UserKeyAlgorithm, cipher_key_plan, parse_master_password_unlock, parse_nonzero_u32, parse_optional_enc_string, plan_org_keys,
    user_crypto_inputs, BitwardenTokenSuccessResponse, BootstrapError, KdfKind, KdfParams, KeySlot,
    MasterPasswordUnlock, OrgKeyError, OrgKeyPlan, UnlockError, UserDecryptionOptions,
};
use keyring::models::{BitwardenCipher, BitwardenProfile, BitwardenProfileOrganization};

fn unlock(kdf_type: KdfKind, iterations: i32, memory: Option<i32>, parallelism: Option<i32>) -> MasterPasswordUnlock {
    MasterPasswordUnlock {
        kdf_type,
        iterations,
        memory,
        parallelism,
        master_key_encrypted_user_key: Some("2.aXY=|ZGF0YQ==|bWFj".to_owned()),
        salt: Some("user@example.com".to_owned()),
    }
}

#[test]
fn kdf_parameters_must_be_positive() {
    assert_eq!(parse_nonzero_u32(600_000), Ok(600_000));
    assert_eq!(parse_nonzero_u32(0), Err(UnlockError::InvalidKdfParameter));
    assert_eq!(parse_nonzero_u32(-1), Err(UnlockError::InvalidKdfParameter));
}

#[test]
fn unlock_payloads_are_checked_in_order() {
    let d = parse_master_password_unlock(&unlock(KdfKind::Pbkdf2Sha256, 600_000, None, None)).unwrap();
    assert_eq!(d.kdf, KdfParams::Pbkdf2 { iterations: 600_000 });
    assert_eq!(d.salt, "user@example.com");
    let d = parse_master_password_unlock(&unlock(KdfKind::Argon2id, 3, Some(64), Some(4))).unwrap();
    assert_eq!(d.kdf, KdfParams::Argon2id { iterations: 3, memory: 64, parallelism: 4 });
    let err = |u| parse_master_password_unlock(&u).unwrap_err();
    assert_eq!(err(unlock(KdfKind::Argon2id, 3, None, Some(4))), UnlockError::MissingArgon2Memory);
    assert_eq!(err(unlock(KdfKind::Argon2id, 3, Some(0), None)), UnlockError::InvalidKdfParameter);
    assert_eq!(err(unlock(KdfKind::Argon2id, 3, Some(64), None)), UnlockError::MissingArgon2Parallelism);
    assert_eq!(err(unlock(KdfKind::Unknown(7), 3, None, None)), UnlockError::UnsupportedKdf);
    let mut u = unlock(KdfKind::Pbkdf2Sha256, 1, None, None);
    u.master_key_encrypted_user_key = None;
    u.salt = None;
    assert_eq!(err(u), UnlockError::MissingWrappedUserKey);
    let mut u = unlock(KdfKind::Pbkdf2Sha256, 1, None, None);
    u.salt = None;
    assert_eq!(UnlockError::MissingSalt.message(), "bitwarden unlock response missing salt");
    assert_eq!(err(u), UnlockError::MissingSalt);
}

#[test]
fn crypto_inputs_need_a_private_key_then_unlock_data() {
    let mut token = BitwardenTokenSuccessResponse {
        access_token: "t".to_owned(),
        expires_in: 3600,
        private_key: None,
        user_decryption_options: Some(UserDecryptionOptions { master_password_unlock: None }),
    };
    assert_eq!(user_crypto_inputs(&token).unwrap_err(), BootstrapError::MissingPrivateKey);
    token.private_key = Some("2.aXY=|ZGF0YQ==|bWFj".to_owned());
    assert_eq!(user_crypto_inputs(&token).unwrap_err(), BootstrapError::MissingUnlockData);
    token.user_decryption_options = Some(UserDecryptionOptions {
        master_password_unlock: Some(unlock(KdfKind::Pbkdf2Sha256, 0, None, None)),
    });
    assert_eq!(user_crypto_inputs(&token).unwrap_err(), BootstrapError::Unlock(UnlockError::InvalidKdfParameter));
    token.user_decryption_options = Some(UserDecryptionOptions {
        master_password_unlock: Some(unlock(KdfKind::Pbkdf2Sha256, 5000, None, None)),
    });
    let (_, data) = user_crypto_inputs(&token).unwrap();
    assert_eq!(data.kdf, KdfParams::Pbkdf2 { iterations: 5000 });
    assert_eq!(
        BootstrapError::Unlock(UnlockError::InvalidKdfParameter).message(),
        "invalid bitwarden kdf parameter"
    );
}

fn org(id: Option<u128>, key: Option<&str>) -> BitwardenProfileOrganization {
    BitwardenProfileOrganization { id, key: key.map(str::to_owned) }
}

#[test]
fn organization_keys_are_planned_in_profile_order() {
    let empty = BitwardenProfile { organizations: Some(vec![]) };
    assert!(matches!(plan_org_keys(&empty, false), Ok(OrgKeyPlan::Keep)));
    assert!(matches!(plan_org_keys(&BitwardenProfile { organizations: None }, true), Ok(OrgKeyPlan::Keep)));

    let profile = BitwardenProfile {
        organizations: Some(vec![org(Some(1), Some("4.AAAA")), org(None, Some("4.AAAA")), org(Some(2), None), org(Some(3), Some("3.AAAA"))]),
    };
    assert_eq!(plan_org_keys(&profile, false).unwrap_err(), OrgKeyError::MissingPrivateKey);
    match plan_org_keys(&profile, true).unwrap() {
        OrgKeyPlan::Rebuild { imports, failed } => {
            assert_eq!(imports.iter().map(|(id, _)| *id).collect::<Vec<_>>(), vec![1, 3]);
            assert_eq!(failed, None);
        }
        OrgKeyPlan::Keep => panic!("expected a rebuild"),
    }

    let broken = BitwardenProfile {
        organizations: Some(vec![org(Some(1), Some("4.AAAA")), org(Some(9), Some("9.AAAA")), org(Some(3), Some("3.AAAA"))]),
    };
    match plan_org_keys(&broken, true).unwrap() {
        OrgKeyPlan::Rebuild { imports, failed } => {
            assert_eq!(imports.len(), 1);
            assert_eq!(failed, Some(9));
        }
        OrgKeyPlan::Keep => panic!("expected a rebuild"),
    }
}

fn cipher(organization_id: Option<u128>, key: Option<&str>) -> BitwardenCipher {
    BitwardenCipher {
        id: Some(1),
        organization_id,
        cipher_type: Some(5),
        name: None,
        deleted_date: None,
        archived_date: None,
        key: key.map(str::to_owned),
        ssh_key: None,
    }
}

#[test]
fn cipher_keys_start_from_the_owner() {
    let plan = cipher_key_plan(&cipher(None, None)).unwrap();
    assert_eq!(plan.base, KeySlot::User);
    assert!(plan.wrapped.is_none());
    let plan = cipher_key_plan(&cipher(Some(77), Some("  "))).unwrap();
    assert_eq!(plan.base, KeySlot::Organization(77));
    assert!(plan.wrapped.is_none());
    let plan = cipher_key_plan(&cipher(Some(77), Some("2.aXY=|ZGF0YQ==|bWFj"))).unwrap();
    assert!(plan.wrapped.is_some());
    assert!(parse_optional_enc_string(None).unwrap().is_none());
    assert!(parse_optional_enc_string(Some("not an enc string")).unwrap().is_some());
}

#[test]
fn user_key_algorithm_check_accepts_only_vault_key_types() {
    assert!(check_user_key_algorithm(Some(UserKeyAlgorithm::Aes256CbcHmac)).is_ok());
    assert!(check_user_key_algorithm(Some(UserKeyAlgorithm::XChaCha20Poly1305)).is_ok());
    assert_eq!(check_user_key_algorithm(Some(UserKeyAlgorithm::Other)), Err(BootstrapError::UnsupportedUserKey));
    assert_eq!(check_user_key_algorithm(None), Err(BootstrapError::UnsupportedUserKey));
}
