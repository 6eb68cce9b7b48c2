//! Service configuration: the command-line arguments, the provider sections of the
//! configuration document, and their validation into providers.

use vstd::prelude::*;
use crate::text::{is_blank, spec_is_blank};
use crate::keys::{KeyAlgorithm, KeyParts, LoadedKey, SigningMaterial, ed25519_public_of};

verus! {

/// Process arguments: the configuration document and the socket path to bind.
#[derive(Debug)]
pub struct Args {
    /// Path to the TOML configuration document that declares providers.
    pub config: String,
    /// Unix socket path (or Windows pipe name) that the agent binds to.
    pub path: String,
}

/// Socket path used when none is given.
pub open spec fn spec_default_path() -> Seq<char> {
    "/tmp/keyring.sock"@
}

impl Args {
    /// Arguments for `config`, with the default socket path when `path` is not given.
    pub fn new(config: String, path: Option<String>) -> (a: Args)
        ensures
            a.config == config,
            path matches Some(p) ==> a.path == p,
            path is None ==> a.path@ == spec_default_path(),
    {
        let path = match path {
            Some(p) => p,
            None => String::from_str("/tmp/keyring.sock"),
        };
        Args { config, path }
    }
}

/// Configuration of one dummy provider.
#[derive(Debug)]
pub struct DummyProviderConfig {
    /// Human-readable identity group name.
    pub name: String,
}

/// Configuration of one Bitwarden-backed provider.
pub struct BitwardenProviderConfig {
    /// Human-readable provider name used in configuration and diagnostics.
    pub name: String,
    /// Base URL for Bitwarden API requests such as `/sync`.
    pub api_url: String,
    /// Base URL for Bitwarden identity and login endpoints.
    pub identity_url: String,
    /// API key client identifier.
    pub client_id: String,
    /// API key secret paired with `client_id`.
    pub client_secret: String,
    /// Master password used to unlock vault crypto.
    pub password: String,
}

/// Debug rendering of a string (`format!("{:?}", s)`): quoted, with escapes.
pub uninterp spec fn debug_str(s: Seq<char>) -> Seq<char>;

/// Renders a string as its `Debug` form, quoted and escaped.
#[verifier::external_body]
pub(crate) fn debug_quoted(s: &str) -> (r: String)
    ensures
        r@ == debug_str(s@),
{
    format!("{:?}", s)
}

/// Debug text of a Bitwarden provider configuration: every field but the client secret and the
/// password, which read `"***"`.
pub open spec fn spec_bitwarden_config_debug(name: Seq<char>, api_url: Seq<char>, identity_url: Seq<char>, client_id: Seq<char>) -> Seq<char> {
    "BitwardenProviderConfig { name: "@ + debug_str(name) + ", api_url: "@ + debug_str(api_url)
        + ", identity_url: "@ + debug_str(identity_url) + ", client_id: "@ + debug_str(client_id)
        + ", client_secret: \"***\", password: \"***\" }"@
}

impl BitwardenProviderConfig {
    /// The text `Debug` shows for this configuration, secrets redacted.
    pub fn debug_text(&self) -> (t: String)
        ensures
            t@ == spec_bitwarden_config_debug(self.name@, self.api_url@, self.identity_url@, self.client_id@),
    {
        let mut t = String::from_str("BitwardenProviderConfig { name: ");
        t.append(debug_quoted(self.name.as_str()).as_str());
        t.append(", api_url: ");
        t.append(debug_quoted(self.api_url.as_str()).as_str());
        t.append(", identity_url: ");
        t.append(debug_quoted(self.identity_url.as_str()).as_str());
        t.append(", client_id: ");
        t.append(debug_quoted(self.client_id.as_str()).as_str());
        t.append(", client_secret: \"***\", password: \"***\" }");
        t
    }
}

/// The debug text of a Bitwarden configuration does not depend on its client secret or
/// password: two configurations that differ only there read the same.
pub proof fn law_debug_text_hides_secrets(a: BitwardenProviderConfig, b: BitwardenProviderConfig)
    requires
        a.name@ == b.name@,
        a.api_url@ == b.api_url@,
        a.identity_url@ == b.identity_url@,
        a.client_id@ == b.client_id@,
    ensures
        spec_bitwarden_config_debug(a.name@, a.api_url@, a.identity_url@, a.client_id@)
            == spec_bitwarden_config_debug(b.name@, b.api_url@, b.identity_url@, b.client_id@),
{
}

/// The full configuration document.
pub struct Config {
    /// Dummy providers, for local development and tests.
    pub dummy: Vec<DummyProviderConfig>,
    /// Bitwarden-backed providers.
    pub bitwarden: Vec<BitwardenProviderConfig>,
}

/// Why a provider could not be constructed from its configuration.
#[derive(Clone, Copy, Debug, PartialEq, Eq, Structural)]
pub enum ProviderError {
    BlankDummyName,
    BlankBitwardenName,
}

impl ProviderError {
    /// The error text.
    pub fn message(&self) -> (m: String)
        ensures
            m@ == match *self {
                ProviderError::BlankDummyName => "dummy provider name must not be empty"@,
                ProviderError::BlankBitwardenName => "bitwarden provider name must not be empty"@,
            },
    {
        match self {
            ProviderError::BlankDummyName => String::from_str("dummy provider name must not be empty"),
            ProviderError::BlankBitwardenName => String::from_str("bitwarden provider name must not be empty"),
        }
    }
}

/// The seed of the dummy provider's key: 32 bytes of 7.
pub open spec fn spec_dummy_seed() -> Seq<u8> {
    Seq::new(32, |_i: int| 7u8)
}

/// In-memory provider with one deterministic Ed25519 identity, derived from its seed.
pub struct DummyProvider {
    pub seed: [u8; 32],
}

impl DummyProvider {
    /// Builds the provider; a blank name is refused. Every provider has the same seed.
    pub fn try_from(value: DummyProviderConfig) -> (r: Result<DummyProvider, ProviderError>)
        ensures
            spec_is_blank(value.name@) <==> r is Err,
            r matches Err(e) ==> e == ProviderError::BlankDummyName,
            r matches Ok(p) ==> p.seed@ == spec_dummy_seed(),
    {
        if is_blank(value.name.as_str()) {
            return Err(ProviderError::BlankDummyName);
        }
        let seed: [u8; 32] = [7u8; 32];
        assert(seed@ =~= spec_dummy_seed());
        Ok(DummyProvider { seed })
    }

    /// The provider's one identity: the Ed25519 key of its seed, with no comment. Every call
    /// gives the same key.
    pub fn load(&self) -> (keys: Vec<LoadedKey>)
        ensures
            keys@.len() == 1,
            keys@[0].algorithm == KeyAlgorithm::Ed25519,
            keys@[0].material matches SigningMaterial::Ed25519 { seed: s, public: p } && s == self.seed
                && p@ == ed25519_public_of(self.seed@),
            keys@[0].parts matches KeyParts::Ed25519 { key } && key@ == ed25519_public_of(self.seed@),
            keys@[0].comment@ == Seq::<char>::empty(),
            keys@[0].wf(),
    {
        let mut keys: Vec<LoadedKey> = Vec::new();
        keys.push(LoadedKey::from_ed25519_seed(self.seed));
        keys
    }
}

/// Checks a Bitwarden provider configuration before any network access: its name must not be
/// blank.
pub fn validate_bitwarden_config(value: &BitwardenProviderConfig) -> (r: Result<(), ProviderError>)
    ensures
        spec_is_blank(value.name@) <==> r is Err,
        r matches Err(e) ==> e == ProviderError::BlankBitwardenName,
{
    if is_blank(value.name.as_str()) {
        Err(ProviderError::BlankBitwardenName)
    } else {
        Ok(())
    }
}

/// A provider built from one configuration section.
pub enum ProviderSpec {
    Dummy(DummyProvider),
    Bitwarden(BitwardenProviderConfig),
}

/// The error of the first section with a blank name, taking sections in the order their
/// providers are built: dummy sections first, then Bitwarden sections.
pub open spec fn spec_first_blank(config: Config) -> Option<ProviderError> {
    if exists|i: int| 0 <= i < config.dummy@.len() && spec_is_blank(#[trigger] config.dummy@[i].name@) {
        Some(ProviderError::BlankDummyName)
    } else if exists|i: int| 0 <= i < config.bitwarden@.len() && spec_is_blank(#[trigger] config.bitwarden@[i].name@) {
        Some(ProviderError::BlankBitwardenName)
    } else {
        None
    }
}

/// `p` is a dummy provider with the dummy seed.
pub open spec fn is_dummy_provider(p: ProviderSpec) -> bool {
    p matches ProviderSpec::Dummy(d) && d.seed@ == spec_dummy_seed()
}

/// `p` is the Bitwarden provider of the section `c`.
pub open spec fn is_bitwarden_of(p: ProviderSpec, c: BitwardenProviderConfig) -> bool {
    p matches ProviderSpec::Bitwarden(x) && x == c
}

impl Config {
    /// Builds the providers of every section: dummy sections first, then Bitwarden sections, each
    /// in declaration order; the first invalid section's error is returned.
    pub fn providers(self) -> (r: Result<Vec<ProviderSpec>, ProviderError>)
        ensures
            spec_first_blank(self) matches Some(e) ==> r == Err::<Vec<ProviderSpec>, ProviderError>(e),
            spec_first_blank(self) is None ==> (r matches Ok(ps) && ps@.len() == self.dummy@.len() + self.bitwarden@.len()
                && (forall|i: int| 0 <= i < self.dummy@.len() ==> is_dummy_provider(#[trigger] ps@[i]))
                && (forall|i: int| 0 <= i < self.bitwarden@.len() ==> is_bitwarden_of(#[trigger] ps@[self.dummy@.len() + i], self.bitwarden@[i]))),
    {
        let ghost cfg = self;
        let ghost dummies = self.dummy@;
        let ghost bws = self.bitwarden@;
        let mut out: Vec<ProviderSpec> = Vec::new();
        let mut dummy = crate::vecs::reversed(self.dummy);
        let nd = dummy.len();
        let mut k: usize = 0;
        while dummy.len() > 0
            invariant
                k + dummy@.len() == dummies.len(),
                cfg.dummy@ == dummies,
                cfg == self,
                cfg.bitwarden@ == bws,
                nd == dummies.len(),
                dummy@ == dummies.subrange(k as int, dummies.len() as int).reverse(),
                out@.len() == k,
                forall|i: int| 0 <= i < k ==> is_dummy_provider(#[trigger] out@[i]),
                forall|i: int| 0 <= i < k ==> !spec_is_blank(#[trigger] dummies[i].name@),
            decreases dummy@.len(),
        {
            let c = dummy.pop().unwrap();
            assert(c == dummies[k as int]);
            match DummyProvider::try_from(c) {
                Ok(p) => out.push(ProviderSpec::Dummy(p)),
                Err(e) => {
                    assert(spec_is_blank(cfg.dummy@[k as int].name@));
                    assert(spec_first_blank(cfg) == Some(ProviderError::BlankDummyName));
                    return Err(e);
                },
            }
            k = k + 1;
            assert(dummy@ =~= dummies.subrange(k as int, dummies.len() as int).reverse());
        }
        assert(!(exists|i: int| 0 <= i < dummies.len() && spec_is_blank(#[trigger] dummies[i].name@)));
        let mut bw = crate::vecs::reversed(self.bitwarden);
        let nb = bw.len();
        let mut j: usize = 0;
        while bw.len() > 0
            invariant
                j + bw@.len() == bws.len(),
                cfg.dummy@ == dummies,
                cfg == self,
                cfg.bitwarden@ == bws,
                nb == bws.len(),
                bw@ == bws.subrange(j as int, bws.len() as int).reverse(),
                out@.len() == nd + j,
                nd == dummies.len(),
                forall|i: int| 0 <= i < nd ==> is_dummy_provider(#[trigger] out@[i]),
                forall|i: int| 0 <= i < j ==> is_bitwarden_of(#[trigger] out@[nd + i], bws[i]),
                forall|i: int| 0 <= i < j ==> !spec_is_blank(#[trigger] bws[i].name@),
                !(exists|i: int| 0 <= i < dummies.len() && spec_is_blank(#[trigger] dummies[i].name@)),
            decreases bw@.len(),
        {
            let c = bw.pop().unwrap();
            assert(c == bws[j as int]);
            match validate_bitwarden_config(&c) {
                Ok(()) => out.push(ProviderSpec::Bitwarden(c)),
                Err(e) => {
                    assert(spec_is_blank(cfg.bitwarden@[j as int].name@));
                    assert(spec_first_blank(cfg) == Some(ProviderError::BlankBitwardenName));
                    return Err(e);
                },
            }
            j = j + 1;
            assert(bw@ =~= bws.subrange(j as int, bws.len() as int).reverse());
        }
        assert(!(exists|i: int| 0 <= i < bws.len() && spec_is_blank(#[trigger] bws[i].name@)));
        assert(spec_first_blank(cfg) is None);
        Ok(out)
    }
}

} // verus!
