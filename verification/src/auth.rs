//! Bitwarden identity authentication: the API-key token request and how its response is read.

use vstd::prelude::*;
use crate::crypto::{BitwardenTokenSuccessResponse, BootstrapError};
use crate::session::spec_is_success;
use crate::text::{percent_encode, spec_is_blank, spec_percent_encode, is_blank};

verus! {

/// Device type sent with the token request.
pub const DEVICE_TYPE: u8 = 10;

/// Device identifier sent with the token request.
pub open spec fn spec_device_identifier() -> Seq<char> {
    "b86dd6ab-4265-4ddf-a7f1-eb28d5677f33"@
}

/// Device name sent with the token request.
pub open spec fn spec_device_name() -> Seq<char> {
    "firefox"@
}

/// Form payload of Bitwarden's API-key token endpoint.
#[derive(Debug)]
pub struct BitwardenApiTokenRequest {
    pub scope: String,
    pub client_id: String,
    pub client_secret: String,
    pub device_type: u8,
    pub device_identifier: String,
    pub device_name: String,
    pub grant_type: String,
}

/// One `name=value` entry of the form: the name as given, the value percent-encoded.
pub open spec fn spec_form_entry(name: Seq<char>, value: Seq<char>) -> Seq<char> {
    name + "="@ + spec_percent_encode(value)
}

/// The form body: the entries of `pairs` joined with `&`.
pub open spec fn spec_form_body(pairs: Seq<(Seq<char>, Seq<char>)>) -> Seq<char>
    decreases pairs.len(),
{
    if pairs.len() == 0 {
        Seq::empty()
    } else if pairs.len() == 1 {
        spec_form_entry(pairs[0].0, pairs[0].1)
    } else {
        spec_form_body(pairs.drop_last()) + "&"@ + spec_form_entry(pairs.last().0, pairs.last().1)
    }
}

impl BitwardenApiTokenRequest {
    /// The client-credentials request for an API key with scope `api`.
    pub fn new(client_id: &str, client_secret: &str) -> (r: Self)
        ensures
            r.scope@ == "api"@,
            r.client_id@ == client_id@,
            r.client_secret@ == client_secret@,
            r.device_type == DEVICE_TYPE,
            r.device_identifier@ == spec_device_identifier(),
            r.device_name@ == spec_device_name(),
            r.grant_type@ == "client_credentials"@,
    {
        BitwardenApiTokenRequest {
            scope: String::from_str("api"),
            client_id: String::from_str(client_id),
            client_secret: String::from_str(client_secret),
            device_type: DEVICE_TYPE,
            device_identifier: String::from_str("b86dd6ab-4265-4ddf-a7f1-eb28d5677f33"),
            device_name: String::from_str("firefox"),
            grant_type: String::from_str("client_credentials"),
        }
    }

    /// The form fields in the order they are sent; the device type always as `10`.
    pub open spec fn spec_pairs(&self) -> Seq<(Seq<char>, Seq<char>)> {
        seq![
            ("scope"@, self.scope@),
            ("client_id"@, self.client_id@),
            ("client_secret"@, self.client_secret@),
            ("deviceType"@, "10"@),
            ("deviceIdentifier"@, self.device_identifier@),
            ("deviceName"@, self.device_name@),
            ("grant_type"@, self.grant_type@),
        ]
    }

    /// The form fields as name and value pairs.
    pub fn pairs(&self) -> (r: [(&'static str, &str); 7])
        ensures
            forall|i: int| 0 <= i < 7 ==> (#[trigger] r@[i]).0@ == self.spec_pairs()[i].0 && r@[i].1@ == self.spec_pairs()[i].1,
    {
        let r = [
            ("scope", self.scope.as_str()),
            ("client_id", self.client_id.as_str()),
            ("client_secret", self.client_secret.as_str()),
            ("deviceType", "10"),
            ("deviceIdentifier", self.device_identifier.as_str()),
            ("deviceName", self.device_name.as_str()),
            ("grant_type", self.grant_type.as_str()),
        ];
        assert forall|i: int| 0 <= i < 7 implies (#[trigger] r@[i]).0@ == self.spec_pairs()[i].0 && r@[i].1@ == self.spec_pairs()[i].1 by {
            if i == 0 { } else if i == 1 { } else if i == 2 { } else if i == 3 { } else if i == 4 { } else if i == 5 { } else { }
        }
        r
    }

    /// The `application/x-www-form-urlencoded` body: names as they are, values escaped.
    pub fn to_form_body(&self) -> (body: String)
        ensures
            body@ == spec_form_body(self.spec_pairs()),
    {
        let pairs = self.pairs();
        let ghost ps = self.spec_pairs();
        let mut body = String::new();
        let mut i: usize = 0;
        while i < 7
            invariant
                i <= 7,
                ps == self.spec_pairs(),
                forall|k: int| 0 <= k < 7 ==> (#[trigger] pairs@[k]).0@ == ps[k].0 && pairs@[k].1@ == ps[k].1,
                body@ == spec_form_body(ps.take(i as int)),
            decreases 7 - i,
        {
            let (name, value) = pairs[i];
            if i > 0 {
                body.append("&");
            }
            body.append(name);
            body.append("=");
            let encoded = percent_encode(value);
            body.append(encoded.as_str());
            proof {
                reveal_strlit("&");
                reveal_strlit("=");
                let t = ps.take(i + 1);
                assert(t.drop_last() =~= ps.take(i as int));
                assert(t.last() == ps[i as int]);
                if i == 0 {
                    assert(t.len() == 1);
                }
            }
            i = i + 1;
        }
        assert(ps.take(7) =~= ps);
        body
    }
}

/// Nested identity error object of the Bitwarden API.
#[derive(Debug)]
pub struct BitwardenIdentityErrorModel {
    pub message: String,
    pub object: String,
}

/// Identity error payload returned by `/connect/token`.
#[derive(Debug)]
pub struct BitwardenIdentityTokenFailResponse {
    pub error: String,
    pub error_description: String,
    pub error_model: BitwardenIdentityErrorModel,
}

/// How an identity error reads: its model's message, or `error: description` when that message
/// is blank.
pub open spec fn spec_fail_message(r: BitwardenIdentityTokenFailResponse) -> Seq<char> {
    if spec_is_blank(r.error_model.message@) {
        r.error@ + ": "@ + r.error_description@
    } else {
        r.error_model.message@
    }
}

impl BitwardenIdentityTokenFailResponse {
    /// The text of this identity error.
    pub fn message(&self) -> (m: String)
        ensures
            m@ == spec_fail_message(*self),
    {
        if is_blank(self.error_model.message.as_str()) {
            let mut m = self.error.clone();
            m.append(": ");
            m.append(self.error_description.as_str());
            proof { reveal_strlit(": "); }
            m
        } else {
            self.error_model.message.clone()
        }
    }
}

/// Authentication failures surfaced to the provider.
#[derive(Debug)]
pub enum BitwardenAuthError {
    /// The token request could not be sent or its body not read; the transport's error text.
    TokenRequest(String),
    /// The identity service answered with an error.
    IdentityFail(BitwardenIdentityTokenFailResponse),
    /// The account requires a second factor, which a headless provider cannot give.
    TwoFactorRequired,
    /// The response matched no known shape, or carried an unusable lifetime; the raw body.
    InvalidResponse(String),
    /// The account keys could not be set up from the login response.
    CryptoBootstrap(BootstrapError),
}

impl BitwardenAuthError {
    /// A failure to send the token request or to read its response.
    pub fn token_request(error: String) -> (e: Self)
        ensures
            e == BitwardenAuthError::TokenRequest(error),
    {
        BitwardenAuthError::TokenRequest(error)
    }

    /// A failure to set up the account keys after a successful login.
    pub fn crypto_bootstrap(error: BootstrapError) -> (e: Self)
        ensures
            e == BitwardenAuthError::CryptoBootstrap(error),
    {
        BitwardenAuthError::CryptoBootstrap(error)
    }

    /// The error text.
    pub fn message(&self) -> (m: String)
        ensures
            m@ == match *self {
                BitwardenAuthError::TokenRequest(_) => "failed to request bitwarden token"@,
                BitwardenAuthError::IdentityFail(r) => spec_fail_message(r),
                BitwardenAuthError::TwoFactorRequired => "bitwarden requires two-factor authentication"@,
                BitwardenAuthError::InvalidResponse(body) => "bitwarden identity response could not be parsed: "@ + body@,
                BitwardenAuthError::CryptoBootstrap(_) => "failed to initialize bitwarden crypto"@,
            },
    {
        match self {
            BitwardenAuthError::TokenRequest(_) => String::from_str("failed to request bitwarden token"),
            BitwardenAuthError::IdentityFail(r) => r.message(),
            BitwardenAuthError::TwoFactorRequired => String::from_str("bitwarden requires two-factor authentication"),
            BitwardenAuthError::InvalidResponse(body) => {
                let mut m = String::from_str("bitwarden identity response could not be parsed: ");
                m.append(body.as_str());
                m
            },
            BitwardenAuthError::CryptoBootstrap(_) => String::from_str("failed to initialize bitwarden crypto"),
        }
    }
}

/// Reads an identity response from its HTTP status and the outcome of decoding its body as each
/// known shape.
///
/// A successful token is preferred, because Bitwarden reuses field names across shapes, but only
/// under a success status: a body that resembles a token under any other status is no login.
/// Then comes the two-factor challenge, then a structured identity error; anything else is an
/// invalid response carrying the raw body.
pub fn parse_token_response(
    status: u16,
    success: Option<BitwardenTokenSuccessResponse>,
    two_factor: bool,
    failure: Option<BitwardenIdentityTokenFailResponse>,
    body: &str,
) -> (r: Result<BitwardenTokenSuccessResponse, BitwardenAuthError>)
    ensures
        r is Ok <==> spec_is_success(status) && success is Some,
        spec_is_success(status) && success is Some ==> r == Ok::<BitwardenTokenSuccessResponse, BitwardenAuthError>(success->0),
        !(spec_is_success(status) && success is Some) && two_factor
            ==> r == Err::<BitwardenTokenSuccessResponse, BitwardenAuthError>(BitwardenAuthError::TwoFactorRequired),
        !(spec_is_success(status) && success is Some) && !two_factor && failure is Some
            ==> r == Err::<BitwardenTokenSuccessResponse, BitwardenAuthError>(BitwardenAuthError::IdentityFail(failure->0)),
        !(spec_is_success(status) && success is Some) && !two_factor && failure is None
            ==> (r matches Err(BitwardenAuthError::InvalidResponse(b)) && b@ == body@),
{
    if 200 <= status && status <= 299 {
        if let Some(s) = success {
            return Ok(s);
        }
    }
    if two_factor {
        return Err(BitwardenAuthError::TwoFactorRequired);
    }
    if let Some(f) = failure {
        return Err(BitwardenAuthError::IdentityFail(f));
    }
    Err(BitwardenAuthError::InvalidResponse(String::from_str(body)))
}

} // verus!
