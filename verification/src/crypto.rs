//! Inputs of the Bitwarden key hierarchy: master-password unlock data, organization shared
//! keys, and the key that protects each cipher.
//!
//! Deriving keys and decrypting payloads happen in a key store that the caller owns; the
//! library decides which encrypted values that store receives, in which order, and which
//! failures end the operation.

use vstd::prelude::*;
use bitwarden_crypto::{CryptoError, EncString, UnsignedSharedKey};
use crate::models::{BitwardenCipher, BitwardenProfile, BitwardenProfileOrganization, opt_str, opt_view};
use crate::text::{is_blank, spec_is_blank};

verus! {

#[verifier::external_type_specification]
#[verifier::external_body]
pub struct ExEncString(bitwarden_crypto::EncString);

#[verifier::external_type_specification]
#[verifier::external_body]
pub struct ExUnsignedSharedKey(bitwarden_crypto::UnsignedSharedKey);

#[verifier::external_type_specification]
#[verifier::external_body]
pub struct ExCryptoError(bitwarden_crypto::CryptoError);

/// Parses an encrypted string (`EncString::from_str`).
///
/// The source of this version states that parsing never fails: text in no known format becomes
/// an unparseable value that later decryption rejects.
#[verifier::external_body]
pub(crate) fn parse_enc_string(s: &str) -> (r: Result<EncString, CryptoError>)
    ensures
        r is Ok,
{
    s.parse::<EncString>()
}

/// Whether `UnsignedSharedKey::from_str` accepts a text: a known asymmetric type tag with the
/// matching number of valid base64 parts.
pub uninterp spec fn shared_key_parses(s: Seq<char>) -> bool;

/// Parses an organization key shared with the user (`UnsignedSharedKey::from_str`); whether it
/// succeeds depends on the text alone.
#[verifier::external_body]
pub(crate) fn parse_shared_key(s: &str) -> (r: Result<UnsignedSharedKey, CryptoError>)
    ensures
        r is Ok == shared_key_parses(s@),
{
    s.parse::<UnsignedSharedKey>()
}

/// Key derivation function named by Bitwarden's unlock payload.
#[derive(Clone, Copy, Debug, PartialEq, Eq, Structural)]
pub enum KdfKind {
    Pbkdf2Sha256,
    Argon2id,
    /// A type this provider does not know, with its number.
    Unknown(i64),
}

/// The `kdf` and wrapped-key part of Bitwarden's master-password unlock payload.
#[derive(Debug)]
pub struct MasterPasswordUnlock {
    pub kdf_type: KdfKind,
    pub iterations: i32,
    pub memory: Option<i32>,
    pub parallelism: Option<i32>,
    pub master_key_encrypted_user_key: Option<String>,
    pub salt: Option<String>,
}

/// Key derivation parameters, all non-zero.
#[derive(Clone, Copy, Debug, PartialEq, Eq, Structural)]
pub enum KdfParams {
    Pbkdf2 { iterations: u32 },
    Argon2id { iterations: u32, memory: u32, parallelism: u32 },
}

/// Unlock inputs for deriving the master key and decrypting the user key.
#[derive(Debug)]
pub struct MasterPasswordUnlockData {
    pub kdf: KdfParams,
    pub master_key_wrapped_user_key: EncString,
    pub salt: String,
}

/// Why the unlock payload could not be used.
#[derive(Clone, Copy, Debug, PartialEq, Eq, Structural)]
pub enum UnlockError {
    InvalidKdfParameter,
    MissingArgon2Memory,
    MissingArgon2Parallelism,
    UnsupportedKdf,
    MissingWrappedUserKey,
    InvalidWrappedUserKey,
    MissingSalt,
}

impl UnlockError {
    /// The error text.
    pub fn message(&self) -> (m: String)
        ensures
            m@ == spec_unlock_error_message(*self),
    {
        match self {
            UnlockError::InvalidKdfParameter => String::from_str("invalid bitwarden kdf parameter"),
            UnlockError::MissingArgon2Memory => String::from_str("bitwarden argon2 response missing memory cost"),
            UnlockError::MissingArgon2Parallelism => String::from_str("bitwarden argon2 response missing parallelism"),
            UnlockError::UnsupportedKdf => String::from_str("bitwarden unlock response uses an unsupported kdf"),
            UnlockError::MissingWrappedUserKey => String::from_str("bitwarden unlock response missing wrapped user key"),
            UnlockError::InvalidWrappedUserKey => String::from_str("failed to parse wrapped bitwarden user key"),
            UnlockError::MissingSalt => String::from_str("bitwarden unlock response missing salt"),
        }
    }
}

/// Text of each unlock error.
pub open spec fn spec_unlock_error_message(e: UnlockError) -> Seq<char> {
    match e {
        UnlockError::InvalidKdfParameter => "invalid bitwarden kdf parameter"@,
        UnlockError::MissingArgon2Memory => "bitwarden argon2 response missing memory cost"@,
        UnlockError::MissingArgon2Parallelism => "bitwarden argon2 response missing parallelism"@,
        UnlockError::UnsupportedKdf => "bitwarden unlock response uses an unsupported kdf"@,
        UnlockError::MissingWrappedUserKey => "bitwarden unlock response missing wrapped user key"@,
        UnlockError::InvalidWrappedUserKey => "failed to parse wrapped bitwarden user key"@,
        UnlockError::MissingSalt => "bitwarden unlock response missing salt"@,
    }
}

/// Validates a key derivation parameter that must be positive.
pub fn parse_nonzero_u32(value: i32) -> (r: Result<u32, UnlockError>)
    ensures
        value > 0 ==> r == Ok::<u32, UnlockError>(value as u32),
        value <= 0 ==> r == Err::<u32, UnlockError>(UnlockError::InvalidKdfParameter),
{
    if value > 0 {
        Ok(value as u32)
    } else {
        Err(UnlockError::InvalidKdfParameter)
    }
}

/// The key derivation parameters of an unlock payload, or the first problem found in it:
/// for PBKDF2 the iteration count; for Argon2id the iteration count, then the memory cost,
/// then the parallelism (each present and positive).
pub open spec fn spec_kdf(u: MasterPasswordUnlock) -> Result<KdfParams, UnlockError> {
    match u.kdf_type {
        KdfKind::Pbkdf2Sha256 => if u.iterations > 0 {
            Ok(KdfParams::Pbkdf2 { iterations: u.iterations as u32 })
        } else {
            Err(UnlockError::InvalidKdfParameter)
        },
        KdfKind::Argon2id => if u.iterations <= 0 {
            Err(UnlockError::InvalidKdfParameter)
        } else if u.memory is None {
            Err(UnlockError::MissingArgon2Memory)
        } else if u.memory->0 <= 0 {
            Err(UnlockError::InvalidKdfParameter)
        } else if u.parallelism is None {
            Err(UnlockError::MissingArgon2Parallelism)
        } else if u.parallelism->0 <= 0 {
            Err(UnlockError::InvalidKdfParameter)
        } else {
            Ok(KdfParams::Argon2id {
                iterations: u.iterations as u32,
                memory: u.memory->0 as u32,
                parallelism: u.parallelism->0 as u32,
            })
        },
        KdfKind::Unknown(_) => Err(UnlockError::UnsupportedKdf),
    }
}

fn kdf_params(u: &MasterPasswordUnlock) -> (r: Result<KdfParams, UnlockError>)
    ensures
        r == spec_kdf(*u),
{
    match u.kdf_type {
        KdfKind::Pbkdf2Sha256 => {
            let iterations = parse_nonzero_u32(u.iterations)?;
            Ok(KdfParams::Pbkdf2 { iterations })
        },
        KdfKind::Argon2id => {
            let iterations = parse_nonzero_u32(u.iterations)?;
            let memory = match u.memory {
                Some(m) => parse_nonzero_u32(m)?,
                None => return Err(UnlockError::MissingArgon2Memory),
            };
            let parallelism = match u.parallelism {
                Some(p) => parse_nonzero_u32(p)?,
                None => return Err(UnlockError::MissingArgon2Parallelism),
            };
            Ok(KdfParams::Argon2id { iterations, memory, parallelism })
        },
        KdfKind::Unknown(_) => Err(UnlockError::UnsupportedKdf),
    }
}

/// Converts Bitwarden's unlock payload into the parameters used locally.
///
/// The key derivation parameters are checked first, then the wrapped user key must be present,
/// then the salt.
pub fn parse_master_password_unlock(response: &MasterPasswordUnlock) -> (r: Result<MasterPasswordUnlockData, UnlockError>)
    ensures
        spec_kdf(*response) matches Err(e) ==> r == Err::<MasterPasswordUnlockData, UnlockError>(e),
        spec_kdf(*response) is Ok && response.master_key_encrypted_user_key is None
            ==> r == Err::<MasterPasswordUnlockData, UnlockError>(UnlockError::MissingWrappedUserKey),
        spec_kdf(*response) is Ok && response.master_key_encrypted_user_key is Some && response.salt is None
            ==> r == Err::<MasterPasswordUnlockData, UnlockError>(UnlockError::MissingSalt),
        r is Ok <==> spec_kdf(*response) is Ok && response.master_key_encrypted_user_key is Some && response.salt is Some,
        r matches Ok(d) ==> d.kdf == spec_kdf(*response)->Ok_0 && d.salt@ == response.salt->0@,
{
    let kdf = kdf_params(response)?;
    let wrapped = match opt_str(&response.master_key_encrypted_user_key) {
        Some(w) => match parse_enc_string(w) {
            Ok(e) => e,
            Err(_) => return Err(UnlockError::InvalidWrappedUserKey),
        },
        None => return Err(UnlockError::MissingWrappedUserKey),
    };
    let salt = match &response.salt {
        Some(s) => s.clone(),
        None => return Err(UnlockError::MissingSalt),
    };
    Ok(MasterPasswordUnlockData { kdf, master_key_wrapped_user_key: wrapped, salt })
}

/// Options for decrypting the user's vault, as the token response carries them.
#[derive(Debug)]
pub struct UserDecryptionOptions {
    pub master_password_unlock: Option<MasterPasswordUnlock>,
}

/// Successful token payload needed to set up the account keys.
#[derive(Debug)]
pub struct BitwardenTokenSuccessResponse {
    pub access_token: String,
    pub expires_in: u64,
    pub private_key: Option<String>,
    pub user_decryption_options: Option<UserDecryptionOptions>,
}

/// Why the account keys could not be set up.
#[derive(Clone, Copy, Debug, PartialEq, Eq, Structural)]
pub enum BootstrapError {
    MissingPrivateKey,
    InvalidPrivateKey,
    MissingUnlockData,
    Unlock(UnlockError),
    InvalidKdfConfiguration,
    UserKeyDecryption,
    UnsupportedUserKey,
    PersistPrivateKey,
    PersistUserKey,
}

impl BootstrapError {
    /// The error text.
    pub fn message(&self) -> (m: String)
        ensures
            m@ == spec_bootstrap_error_message(*self),
    {
        match self {
            BootstrapError::MissingPrivateKey => String::from_str("bitwarden token response missing private key"),
            BootstrapError::InvalidPrivateKey => String::from_str("failed to parse bitwarden private key"),
            BootstrapError::MissingUnlockData => String::from_str("bitwarden token response missing master password unlock data"),
            BootstrapError::Unlock(e) => e.message(),
            BootstrapError::InvalidKdfConfiguration => String::from_str("invalid bitwarden kdf configuration"),
            BootstrapError::UserKeyDecryption => String::from_str("failed to decrypt bitwarden user key"),
            BootstrapError::UnsupportedUserKey => String::from_str("bitwarden user key uses an unsupported algorithm"),
            BootstrapError::PersistPrivateKey => String::from_str("failed to persist bitwarden private key"),
            BootstrapError::PersistUserKey => String::from_str("failed to persist bitwarden user key"),
        }
    }
}

/// Text of each bootstrap error.
pub open spec fn spec_bootstrap_error_message(e: BootstrapError) -> Seq<char> {
    match e {
        BootstrapError::MissingPrivateKey => "bitwarden token response missing private key"@,
        BootstrapError::InvalidPrivateKey => "failed to parse bitwarden private key"@,
        BootstrapError::MissingUnlockData => "bitwarden token response missing master password unlock data"@,
        BootstrapError::Unlock(u) => spec_unlock_error_message(u),
        BootstrapError::InvalidKdfConfiguration => "invalid bitwarden kdf configuration"@,
        BootstrapError::UserKeyDecryption => "failed to decrypt bitwarden user key"@,
        BootstrapError::UnsupportedUserKey => "bitwarden user key uses an unsupported algorithm"@,
        BootstrapError::PersistPrivateKey => "failed to persist bitwarden private key"@,
        BootstrapError::PersistUserKey => "failed to persist bitwarden user key"@,
    }
}

/// The unlock payload of a token response, when it carries one.
pub open spec fn spec_unlock_of(token: BitwardenTokenSuccessResponse) -> Option<MasterPasswordUnlock> {
    match token.user_decryption_options {
        Some(o) => o.master_password_unlock,
        None => None,
    }
}

/// Extracts the encrypted private key and the unlock data from a token response, in this order:
/// the private key must be present, then the unlock payload, which must then be usable.
pub fn user_crypto_inputs(token: &BitwardenTokenSuccessResponse) -> (r: Result<(EncString, MasterPasswordUnlockData), BootstrapError>)
    ensures
        token.private_key is None ==> r == Err::<(EncString, MasterPasswordUnlockData), BootstrapError>(BootstrapError::MissingPrivateKey),
        token.private_key is Some && spec_unlock_of(*token) is None
            ==> r == Err::<(EncString, MasterPasswordUnlockData), BootstrapError>(BootstrapError::MissingUnlockData),
        r is Ok <==> token.private_key is Some && (spec_unlock_of(*token) matches Some(u)
            && spec_kdf(u) is Ok && u.master_key_encrypted_user_key is Some && u.salt is Some),
        r matches Err(BootstrapError::Unlock(e)) ==> token.private_key is Some && spec_unlock_of(*token) is Some,
        r matches Ok((_, d)) ==> d.kdf == spec_kdf(spec_unlock_of(*token)->0)->Ok_0,
{
    let private_key = match opt_str(&token.private_key) {
        Some(p) => match parse_enc_string(p) {
            Ok(e) => e,
            Err(_) => return Err(BootstrapError::InvalidPrivateKey),
        },
        None => return Err(BootstrapError::MissingPrivateKey),
    };
    let unlock = match &token.user_decryption_options {
        Some(o) => match &o.master_password_unlock {
            Some(u) => u,
            None => return Err(BootstrapError::MissingUnlockData),
        },
        None => return Err(BootstrapError::MissingUnlockData),
    };
    match parse_master_password_unlock(unlock) {
        Ok(d) => Ok((private_key, d)),
        Err(e) => Err(BootstrapError::Unlock(e)),
    }
}

/// Symmetric algorithm of a decrypted user key, as the key store reports it (`None` when it
/// reports none).
#[derive(Clone, Copy, Debug, PartialEq, Eq, Structural)]
pub enum UserKeyAlgorithm {
    Aes256CbcHmac,
    XChaCha20Poly1305,
    /// Any other algorithm the key store knows.
    Other,
}

/// Accepts a decrypted user key only when it is an AES-256-CBC-HMAC or XChaCha20-Poly1305 key.
pub fn check_user_key_algorithm(algorithm: Option<UserKeyAlgorithm>) -> (r: Result<(), BootstrapError>)
    ensures
        r is Ok <==> (algorithm == Some(UserKeyAlgorithm::Aes256CbcHmac) || algorithm == Some(UserKeyAlgorithm::XChaCha20Poly1305)),
        r matches Err(e) ==> e == BootstrapError::UnsupportedUserKey,
{
    match algorithm {
        Some(UserKeyAlgorithm::Aes256CbcHmac) | Some(UserKeyAlgorithm::XChaCha20Poly1305) => Ok(()),
        _ => Err(BootstrapError::UnsupportedUserKey),
    }
}

/// Why organization keys could not be imported.
#[derive(Clone, Copy, Debug, PartialEq, Eq, Structural)]
pub enum OrgKeyError {
    /// The user's private key, which the organization keys are encrypted for, is missing.
    MissingPrivateKey,
    /// The shared key of this organization could not be parsed.
    InvalidOrgKey(u128),
    /// The shared key of this organization could not be decrypted.
    OrgKeyDecryption(u128),
}

/// What to do with the organization keys of the key store after a sync.
#[derive(Debug)]
pub enum OrgKeyPlan {
    /// The profile lists no organization: leave the store as it is.
    Keep,
    /// Drop all organization keys, then import these in order; when `failed` names an
    /// organization, its key could not be parsed and the import stops with that error.
    Rebuild { imports: Vec<(u128, UnsignedSharedKey)>, failed: Option<u128> },
}

/// The organizations of a profile (none when the list is absent).
pub open spec fn spec_organizations(profile: BitwardenProfile) -> Seq<BitwardenProfileOrganization> {
    match profile.organizations {
        Some(o) => o@,
        None => Seq::empty(),
    }
}

/// The organizations that carry both an id and a key, in profile order.
pub open spec fn spec_importable(orgs: Seq<BitwardenProfileOrganization>) -> Seq<BitwardenProfileOrganization> {
    orgs.filter(|o: BitwardenProfileOrganization| o.id is Some && o.key is Some)
}

/// `plan` rebuilds the organization keys from `orgs`: it imports a prefix of them, each with a
/// key that parses, and either all of them or up to the first whose key does not parse.
pub open spec fn rebuilds(plan: OrgKeyPlan, orgs: Seq<BitwardenProfileOrganization>) -> bool {
    match plan {
        OrgKeyPlan::Keep => false,
        OrgKeyPlan::Rebuild { imports, failed } => {
            &&& imports@.len() <= orgs.len()
            &&& forall|i: int| 0 <= i < imports@.len() ==> (#[trigger] imports@[i]).0 == orgs[i].id->0 && shared_key_parses(orgs[i].key->0@)
            &&& failed is None ==> imports@.len() == orgs.len()
            &&& failed matches Some(id) ==> imports@.len() < orgs.len() && id == orgs[imports@.len() as int].id->0
                && !shared_key_parses(orgs[imports@.len() as int].key->0@)
        },
    }
}

/// Plans the import of organization shared keys from a sync profile.
///
/// No organizations: nothing changes. Otherwise the user's private key must be present; the
/// organization keys are then rebuilt from the organizations that carry both an id and a key,
/// in profile order, stopping at the first key that does not parse.
pub fn plan_org_keys(profile: &BitwardenProfile, has_private_key: bool) -> (r: Result<OrgKeyPlan, OrgKeyError>)
    ensures
        spec_organizations(*profile).len() == 0 ==> r matches Ok(OrgKeyPlan::Keep),
        spec_organizations(*profile).len() > 0 && !has_private_key ==> r == Err::<OrgKeyPlan, OrgKeyError>(OrgKeyError::MissingPrivateKey),
        spec_organizations(*profile).len() > 0 && has_private_key ==> (r matches Ok(p) && rebuilds(p, spec_importable(spec_organizations(*profile)))),
{
    let orgs: &Vec<BitwardenProfileOrganization> = match &profile.organizations {
        Some(o) => o,
        None => {
            return Ok(OrgKeyPlan::Keep);
        },
    };
    if orgs.len() == 0 {
        return Ok(OrgKeyPlan::Keep);
    }
    if !has_private_key {
        return Err(OrgKeyError::MissingPrivateKey);
    }
    let ghost all = orgs@;
    let ghost pred = |o: BitwardenProfileOrganization| o.id is Some && o.key is Some;
    let mut imports: Vec<(u128, UnsignedSharedKey)> = Vec::new();
    let mut i: usize = 0;
    while i < orgs.len()
        invariant
            all == orgs@,
            all == spec_organizations(*profile),
            all.len() > 0,
            has_private_key,
            pred == (|o: BitwardenProfileOrganization| o.id is Some && o.key is Some),
            i <= all.len(),
            imports@.len() == all.take(i as int).filter(pred).len(),
            forall|k: int| 0 <= k < imports@.len() ==> (#[trigger] imports@[k]).0 == all.take(i as int).filter(pred)[k].id->0
                && shared_key_parses(all.take(i as int).filter(pred)[k].key->0@),
        decreases all.len() - i,
    {
        let ghost before = all.take(i as int).filter(pred);
        proof {
            assert(all.take(i + 1) =~= all.take(i as int).push(all[i as int]));
            all.take(i as int).lemma_filter_push(all[i as int], pred);
        }
        let org = &orgs[i];
        assert(*org == all[i as int]);
        let key_text = opt_str(&org.key);
        match (org.id, key_text) {
            (Some(id), Some(key)) => {
                assert(org.id is Some && org.key is Some);
                assert(pred(all[i as int]));
                assert(all.take(i + 1).filter(pred) == before.push(all[i as int]));
                match parse_shared_key(key) {
                    Ok(shared) => {
                        imports.push((id, shared));
                    },
                    Err(_) => {
                        proof {
                            assert(all.take(i + 1).is_prefix_of(all));
                            all.take(i + 1).lemma_filter_monotone(all, pred);
                            let orgs_f = all.filter(pred);
                            assert(all.take(i + 1).filter(pred)[imports@.len() as int] == all[i as int]);
                            assert forall|k: int| 0 <= k < imports@.len() implies (#[trigger] imports@[k]).0 == orgs_f[k].id->0
                                && shared_key_parses(orgs_f[k].key->0@) by {
                                assert(before[k] == all.take(i + 1).filter(pred)[k]);
                            }
                        }
                        return Ok(OrgKeyPlan::Rebuild { imports, failed: Some(id) });
                    },
                }
            },
            _ => {
                assert(!pred(all[i as int]));
                assert(all.take(i + 1).filter(pred) == before);
            },
        }
        i = i + 1;
    }
    assert(all.take(all.len() as int) =~= all);
    assert(spec_organizations(*profile) == all);
    Ok(OrgKeyPlan::Rebuild { imports, failed: None })
}

/// Where a cipher's base key lives in the key store.
#[derive(Clone, Copy, Debug, PartialEq, Eq, Structural)]
pub enum KeySlot {
    User,
    Organization(u128),
}

/// How to obtain the key that decrypts a cipher: start from the base key of its owner and, when
/// the cipher carries its own wrapped key, unwrap that with the base key.
#[derive(Debug)]
pub struct CipherKeyPlan {
    pub base: KeySlot,
    pub wrapped: Option<EncString>,
}

/// The base key of a cipher: its organization's key when it belongs to one, else the user key.
pub open spec fn spec_base_slot(cipher: BitwardenCipher) -> KeySlot {
    match cipher.organization_id {
        Some(id) => KeySlot::Organization(id),
        None => KeySlot::User,
    }
}

/// Whether the cipher carries its own (non-blank) wrapped key.
pub open spec fn spec_has_item_key(cipher: BitwardenCipher) -> bool {
    cipher.key matches Some(k) && !spec_is_blank(k@)
}

/// Why a cipher could not be decrypted.
#[derive(Clone, Copy, Debug, PartialEq, Eq, Structural)]
pub enum CipherError {
    InvalidCipherKey,
    CipherKeyUnwrap,
    MissingCipherKey,
    InvalidEncString,
    Decryption,
    InvalidPrivateKey,
}

/// Plans the resolution of a cipher's key.
pub fn cipher_key_plan(cipher: &BitwardenCipher) -> (r: Result<CipherKeyPlan, CipherError>)
    ensures
        r matches Ok(p) ==> p.base == spec_base_slot(*cipher) && (p.wrapped is Some <==> spec_has_item_key(*cipher)),
        r is Ok,
{
    let base = match cipher.organization_id {
        Some(id) => KeySlot::Organization(id),
        None => KeySlot::User,
    };
    let wrapped = match opt_str(&cipher.key) {
        Some(k) => if !is_blank(k) {
            match parse_enc_string(k) {
                Ok(e) => Some(e),
                Err(_) => return Err(CipherError::InvalidCipherKey),
            }
        } else {
            None
        },
        None => None,
    };
    Ok(CipherKeyPlan { base, wrapped })
}

/// Parses an optional encrypted field; a missing field is not an error.
pub fn parse_optional_enc_string(value: Option<&str>) -> (r: Result<Option<EncString>, CipherError>)
    ensures
        r matches Ok(o) && (o is Some <==> value is Some),
{
    match value {
        Some(v) => match parse_enc_string(v) {
            Ok(e) => Ok(Some(e)),
            Err(_) => Err(CipherError::InvalidEncString),
        },
        None => Ok(None),
    }
}

} // verus!
