use keyring::auth::{
    parse_token_response, BitwardenApiTokenRequest, BitwardenAuthError, BitwardenIdentityErrorModel,
    BitwardenIdentityTokenFailResponse,
};
use keyring::crypto::{BitwardenTokenSuccessResponse, BootstrapError};

fn fail(message: &str) -> BitwardenIdentityTokenFailResponse {
    BitwardenIdentityTokenFailResponse {
        error: "invalid_client".to_owned(),
        error_description: "bad secret".to_owned(),
        error_model: BitwardenIdentityErrorModel { message: message.to_owned(), object: "error".to_owned() },
    }
}

fn success() -> BitwardenTokenSuccessResponse {
    BitwardenTokenSuccessResponse {
        access_token: "token".to_owned(),
        expires_in: 3600,
        private_key: None,
        user_decryption_options: None,
    }
}

#[test]
fn token_request_carries_fixed_device_fields() {
    let request = BitwardenApiTokenRequest::new("client-id", "client-secret");
    assert_eq!(request.scope, "api");
    assert_eq!(request.grant_type, "client_credentials");
    assert_eq!(request.device_type, 10);
    assert_eq!(request.device_name, "firefox");
    assert_eq!(request.device_identifier, "b86dd6ab-4265-4ddf-a7f1-eb28d5677f33");
    let pairs = request.pairs();
    assert_eq!(pairs[0], ("scope", "api"));
    assert_eq!(pairs[3], ("deviceType", "10"));
    assert_eq!(pairs[6], ("grant_type", "client_credentials"));
}

#[test]
fn form_body_escapes_values_only() {
    let request = BitwardenApiTokenRequest::new("user.a1b2", "s3cr3t&x=y z");
    assert_eq!(
        request.to_form_body(),
        "scope=api&client_id=user.a1b2&client_secret=s3cr3t%26x%3Dy%20z&deviceType=10\
         &deviceIdentifier=b86dd6ab-4265-4ddf-a7f1-eb28d5677f33&deviceName=firefox&grant_type=client_credentials"
    );
}

#[test]
fn identity_error_text_prefers_the_model_message() {
    assert_eq!(fail("Invalid client secret").message(), "Invalid client secret");
    assert_eq!(fail("   ").message(), "invalid_client: bad secret");
}

#[test]
fn token_response_shapes_are_tried_in_order() {
    let ok = parse_token_response(200, Some(success()), true, Some(fail("x")), "{}").unwrap();
    assert_eq!(ok.access_token, "token");
    assert!(matches!(
        parse_token_response(400, None, true, Some(fail("x")), "{}"),
        Err(BitwardenAuthError::TwoFactorRequired)
    ));
    match parse_token_response(400, None, false, Some(fail("denied")), "{}") {
        Err(BitwardenAuthError::IdentityFail(f)) => assert_eq!(f.message(), "denied"),
        other => panic!("unexpected {other:?}"),
    }
    match parse_token_response(500, None, false, None, "<html>") {
        Err(e @ BitwardenAuthError::InvalidResponse(_)) => {
            assert_eq!(e.message(), "bitwarden identity response could not be parsed: <html>")
        }
        other => panic!("unexpected {other:?}"),
    }
}

#[test]
fn auth_error_texts() {
    assert_eq!(
        BitwardenAuthError::token_request("connection refused".to_owned()).message(),
        "failed to request bitwarden token"
    );
    assert_eq!(
        BitwardenAuthError::crypto_bootstrap(BootstrapError::MissingPrivateKey).message(),
        "failed to initialize bitwarden crypto"
    );
    assert_eq!(BitwardenAuthError::TwoFactorRequired.message(), "bitwarden requires two-factor authentication");
}

#[test]
fn token_shaped_body_under_error_status_is_no_login() {
    match parse_token_response(401, Some(success()), false, None, "{\"access_token\":\"token\"}") {
        Err(BitwardenAuthError::InvalidResponse(body)) => assert_eq!(body, "{\"access_token\":\"token\"}"),
        other => panic!("unexpected {other:?}"),
    }
    assert!(matches!(
        parse_token_response(500, Some(success()), true, None, "{}"),
        Err(BitwardenAuthError::TwoFactorRequired)
    ));
    assert!(parse_token_response(204, Some(success()), false, None, "{}").is_ok());
}
