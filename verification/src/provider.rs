//! Bitwarden SSH-key discovery: which ciphers can become identities, how an identity is named,
//! and which parsed keys a sync publishes.

use vstd::prelude::*;
use ssh_key::PrivateKey;
use crate::models::{BitwardenCipher, BitwardenProfile, BitwardenSyncResponse, opt_view};
use crate::keys::LoadedKey;
use crate::text::{spec_trim, trim, is_blank, lemma_trim_blank};
use crate::vecs::reversed;
use crate::cache::{CacheCell, spec_elapsed, spec_refreshed, law_fresh_within_ttl};
use crate::session::NANOS_PER_SEC;

verus! {

/// Seconds for which a provider reuses the keys of its last successful sync.
pub const KEY_SNAPSHOT_TTL_SECS: u64 = 3600;

/// A key snapshot cached at `ts` is reused by every load less than an hour later, and from then
/// on a load fetches again: a fetched snapshot replaces the entry, stamped with the time of the
/// fetch, while a failed fetch leaves the old entry in place and is not answered with it.
pub proof fn law_key_snapshot_reused_for_an_hour<T, E>(c: CacheCell<T>, v: T, ts: u64, now: u64, fetched: Result<T, E>)
    requires
        c.entry == Some((v, ts)),
    ensures
        spec_elapsed(now, ts) < KEY_SNAPSHOT_TTL_SECS * NANOS_PER_SEC ==> c.spec_fresh(now, (KEY_SNAPSHOT_TTL_SECS * NANOS_PER_SEC) as u64) == Some(v),
        spec_elapsed(now, ts) >= KEY_SNAPSHOT_TTL_SECS * NANOS_PER_SEC ==> c.spec_fresh(now, (KEY_SNAPSHOT_TTL_SECS * NANOS_PER_SEC) as u64) is None,
        spec_refreshed(c, fetched, now) == match fetched {
            Ok(w) => CacheCell { entry: Some((w, now)) },
            Err(_) => c,
        },
{
    law_fresh_within_ttl(c, v, ts, now, (KEY_SNAPSHOT_TTL_SECS * NANOS_PER_SEC) as u64);
}

/// Text of a UUID given as an integer (`Uuid::from_u128`, then `to_string`): 32 lower-case hex
/// digits, most significant first, in groups of 8, 4, 4, 4 and 12 separated by hyphens.
#[verifier::external_body]
pub(crate) fn uuid_text(id: u128) -> (s: String)
    ensures
        s@ == spec_uuid_text(id),
{
    uuid::Uuid::from_u128(id).to_string()
}

/// Lower-case hex digit of a value below 16.
pub open spec fn spec_hex_lower(d: u128) -> char {
    if d < 10 {
        (d + 48) as char
    } else {
        (d - 10 + 97) as char
    }
}

/// The `k`-th hex digit of `id`, counting from the most significant one.
pub open spec fn spec_uuid_digit(id: u128, k: int) -> char {
    spec_hex_lower((id >> ((124 - 4 * k) as u128)) & 15)
}

/// The hyphenated lower-case text of a UUID.
pub open spec fn spec_uuid_text(id: u128) -> Seq<char> {
    Seq::new(36, |p: int|
        if p == 8 || p == 13 || p == 18 || p == 23 {
            '-'
        } else if p < 8 {
            spec_uuid_digit(id, p)
        } else if p < 13 {
            spec_uuid_digit(id, p - 1)
        } else if p < 18 {
            spec_uuid_digit(id, p - 2)
        } else if p < 23 {
            spec_uuid_digit(id, p - 3)
        } else {
            spec_uuid_digit(id, p - 4)
        })
}

/// Whether `PrivateKey::from_openssh` accepts a text as an OpenSSH private key.
pub uninterp spec fn openssh_parses(text: Seq<char>) -> bool;

/// Parses an OpenSSH private key (`PrivateKey::from_openssh`); whether it succeeds depends on the
/// text alone.
#[verifier::external_body]
pub(crate) fn private_key_from_openssh(text: &str) -> (r: Result<PrivateKey, ssh_key::Error>)
    ensures
        r is Ok == openssh_parses(text@),
{
    PrivateKey::from_openssh(text)
}

/// A cipher can yield an identity: a live SSH-key item (not trashed, not archived) with an id
/// and an SSH-key payload. Only such ciphers are decrypted.
pub open spec fn spec_is_candidate(c: BitwardenCipher) -> bool {
    &&& c.spec_is_ssh_key()
    &&& !c.spec_is_deleted()
    &&& !c.spec_is_archived()
    &&& c.id is Some
    &&& c.ssh_key is Some
}

/// The id of a cipher that can yield an identity, or `None` for one that is skipped.
pub fn cipher_candidate(cipher: &BitwardenCipher) -> (r: Option<u128>)
    ensures
        r is Some <==> spec_is_candidate(*cipher),
        r matches Some(id) ==> cipher.id == Some(id),
{
    if !cipher.is_ssh_key() || cipher.is_deleted() || cipher.is_archived() {
        return None;
    }
    match (cipher.id, &cipher.ssh_key) {
        (Some(id), Some(_)) => Some(id),
        _ => None,
    }
}

/// The comment of a discovered identity: its decrypted name without surrounding whitespace, or
/// `bitwarden:` and the cipher's UUID when the name is missing or blank.
pub open spec fn spec_identity_comment(name: Option<Seq<char>>, id: u128) -> Seq<char> {
    match name {
        Some(n) => if spec_trim(n).len() > 0 {
            spec_trim(n)
        } else {
            "bitwarden:"@ + spec_uuid_text(id)
        },
        None => "bitwarden:"@ + spec_uuid_text(id),
    }
}

/// Chooses the comment of a discovered identity.
pub fn identity_comment(name: Option<&str>, id: u128) -> (c: String)
    ensures
        c@ == spec_identity_comment(match name { Some(n) => Some(n@), None => None }, id),
{
    if let Some(n) = name {
        proof { lemma_trim_blank(n@); }
        if !is_blank(n) {
            return trim(n);
        }
    }
    let mut c = String::from_str("bitwarden:");
    let u = uuid_text(id);
    c.append(u.as_str());
    c
}

/// Why a decrypted SSH key item could not be turned into an identity.
#[derive(Clone, Copy, Debug, PartialEq, Eq, Structural)]
pub enum IdentityError {
    /// The private key text of this cipher is not an OpenSSH private key.
    InvalidPrivateKey(u128),
}

/// Turns the decrypted fields of an SSH key item into an identity: no private-key text yields
/// no identity; otherwise the text must parse, and the key gets the chosen comment.
pub fn finish_identity(id: u128, name: Option<String>, private_key: Option<String>) -> (r: Result<Option<LoadedKey>, IdentityError>)
    ensures
        private_key is None ==> r matches Ok(None),
        private_key matches Some(t) ==> (openssh_parses(t@) <==> r matches Ok(Some(_))),
        private_key matches Some(t) ==> (!openssh_parses(t@) <==> r == Err::<Option<LoadedKey>, IdentityError>(IdentityError::InvalidPrivateKey(id))),
        r matches Ok(Some(k)) ==> k.wf() && k.comment@ == spec_identity_comment(opt_view(name), id),
{
    let text = match private_key {
        Some(t) => t,
        None => return Ok(None),
    };
    let key = match private_key_from_openssh(text.as_str()) {
        Ok(k) => k,
        Err(_) => return Err(IdentityError::InvalidPrivateKey(id)),
    };
    let comment = match &name {
        Some(n) => identity_comment(Some(n.as_str()), id),
        None => identity_comment(None, id),
    };
    Ok(Some(LoadedKey::new(key).with_comment(comment)))
}

/// The keys of `outcomes` that parsed, in order; skipped and failed ciphers contribute nothing.
pub open spec fn spec_discovered<E>(outcomes: Seq<Result<Option<LoadedKey>, E>>) -> Seq<LoadedKey>
    decreases outcomes.len(),
{
    if outcomes.len() == 0 {
        Seq::empty()
    } else {
        let rest = spec_discovered(outcomes.drop_last());
        match outcomes.last() {
            Ok(Some(k)) => rest.push(k),
            _ => rest,
        }
    }
}

/// Keeps the keys that the ciphers of one sync yielded, in cipher order. A cipher that failed
/// to parse does not keep the others from being published.
pub fn discover<E>(outcomes: Vec<Result<Option<LoadedKey>, E>>) -> (keys: Vec<LoadedKey>)
    ensures
        keys@ == spec_discovered(outcomes@),
{
    let ghost input = outcomes@;
    let total = outcomes.len();
    let mut rest = reversed(outcomes);
    let mut keys: Vec<LoadedKey> = Vec::new();
    let mut n: usize = 0;
    while rest.len() > 0
        invariant
            n + rest@.len() == input.len(),
            total == input.len(),
            rest@ == input.subrange(n as int, input.len() as int).reverse(),
            keys@ == spec_discovered(input.take(n as int)),
        decreases rest@.len(),
    {
        let o = rest.pop().unwrap();
        assert(o == input[n as int]);
        assert(input.take(n + 1).drop_last() =~= input.take(n as int));
        match o {
            Ok(Some(k)) => keys.push(k),
            _ => {},
        }
        n = n + 1;
        assert(rest@ =~= input.subrange(n as int, input.len() as int).reverse());
    }
    assert(input.take(n as int) =~= input);
    keys
}

/// Why a sync could not be used.
#[derive(Clone, Copy, Debug, PartialEq, Eq, Structural)]
pub enum FetchError {
    /// The sync response carries no profile.
    MissingProfile,
}

/// The profile and ciphers of a sync response: the profile is required, missing ciphers mean
/// none.
pub fn sync_contents(response: BitwardenSyncResponse) -> (r: Result<(BitwardenProfile, Vec<BitwardenCipher>), FetchError>)
    ensures
        response.profile is None <==> r is Err,
        r matches Ok((p, c)) ==> p == response.profile->0 && c@ == match response.ciphers {
            Some(v) => v@,
            None => Seq::empty(),
        },
{
    let profile = match response.profile {
        Some(p) => p,
        None => return Err(FetchError::MissingProfile),
    };
    let ciphers = match response.ciphers {
        Some(c) => c,
        None => Vec::new(),
    };
    Ok((profile, ciphers))
}

} // verus!
