//! The parts of Bitwarden's `/sync` and identity responses that the provider reads.

use vstd::prelude::*;
use crate::text::{has_non_blank_value, spec_has_non_blank_value};

verus! {

/// Bitwarden cipher type identifier for SSH keys.
pub const CIPHER_TYPE_SSH_KEY: i64 = 5;

/// Top-level subset of the `/sync` response.
#[derive(Debug)]
pub struct BitwardenSyncResponse {
    pub profile: Option<BitwardenProfile>,
    pub ciphers: Option<Vec<BitwardenCipher>>,
}

/// Profile subset used to import organization shared keys.
#[derive(Debug)]
pub struct BitwardenProfile {
    pub organizations: Option<Vec<BitwardenProfileOrganization>>,
}

/// Organization entry carrying the encrypted shared key; the id is the UUID as an integer.
#[derive(Debug)]
pub struct BitwardenProfileOrganization {
    pub id: Option<u128>,
    pub key: Option<String>,
}

/// Cipher subset needed for SSH-key discovery and decryption; ids are UUIDs as integers.
#[derive(Debug)]
pub struct BitwardenCipher {
    pub id: Option<u128>,
    pub organization_id: Option<u128>,
    pub cipher_type: Option<i64>,
    pub name: Option<String>,
    pub deleted_date: Option<String>,
    pub archived_date: Option<String>,
    pub key: Option<String>,
    pub ssh_key: Option<BitwardenCipherSshKey>,
}

/// SSH-key payload subset embedded inside a cipher.
#[derive(Debug)]
pub struct BitwardenCipherSshKey {
    pub private_key: Option<String>,
}

/// View of an optional text.
pub open spec fn opt_view(v: Option<String>) -> Option<Seq<char>> {
    match v {
        Some(s) => Some(s@),
        None => None,
    }
}

/// Borrows the text of an optional string.
pub fn opt_str(v: &Option<String>) -> (r: Option<&str>)
    ensures
        match r {
            Some(s) => v.is_some() && s@ == v->0@,
            None => v.is_none(),
        },
{
    match v {
        Some(s) => Some(s.as_str()),
        None => None,
    }
}

impl BitwardenCipher {
    /// This cipher is an SSH key item.
    pub open spec fn spec_is_ssh_key(&self) -> bool {
        self.cipher_type == Some(CIPHER_TYPE_SSH_KEY)
    }

    /// This cipher was moved to the trash: its deletion date is present and not blank.
    pub open spec fn spec_is_deleted(&self) -> bool {
        spec_has_non_blank_value(opt_view(self.deleted_date))
    }

    /// This cipher was archived: its archive date is present and not blank.
    pub open spec fn spec_is_archived(&self) -> bool {
        spec_has_non_blank_value(opt_view(self.archived_date))
    }

    /// Returns whether this cipher represents an SSH key item.
    pub fn is_ssh_key(&self) -> (r: bool)
        ensures
            r == self.spec_is_ssh_key(),
    {
        match self.cipher_type {
            Some(t) => t == CIPHER_TYPE_SSH_KEY,
            None => false,
        }
    }

    /// Returns whether Bitwarden has moved this cipher to the trash.
    pub fn is_deleted(&self) -> (r: bool)
        ensures
            r == self.spec_is_deleted(),
    {
        has_non_blank_value(opt_str(&self.deleted_date))
    }

    /// Returns whether Bitwarden has archived this cipher.
    pub fn is_archived(&self) -> (r: bool)
        ensures
            r == self.spec_is_archived(),
    {
        has_non_blank_value(opt_str(&self.archived_date))
    }
}

} // verus!
