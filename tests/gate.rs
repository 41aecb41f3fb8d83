use server::gate::{
    authenticate, check_params, reject_resolution, AuthParams, BAD_REQUEST,
    INTERNAL_SERVER_ERROR, UNAUTHORIZED,
};
use server::key::ParseError;
use server::response::{EmptyResponse, Error, Status, SubsonicResponse};
use server::store::{ApiKeyError, CredentialStore, User};

fn params(api_key: Option<&str>, password: Option<&str>, token: Option<&str>, salt: Option<&str>) -> AuthParams {
    AuthParams {
        api_key: api_key.map(|s| s.to_string()),
        password: password.map(|s| s.to_string()),
        token: token.map(|s| s.to_string()),
        salt: salt.map(|s| s.to_string()),
    }
}

fn issued() -> (CredentialStore, User, String) {
    let mut store = CredentialStore::new();
    let owner = store.add_user();
    let (key, _) = store.issue(owner.id, None).unwrap();
    (store, owner, key.to_string())
}

#[test]
fn missing_api_key_is_401_code_10() {
    let (store, _, _) = issued();
    let j = authenticate(&params(None, None, None, None), &store).unwrap_err();
    assert_eq!(j.status, 401);
    assert_eq!(j.error.code, 10);
    assert_eq!(j.error.message, "Missing 'apiKey' parameter");
    let j = authenticate(&params(None, Some("x"), None, None), &store).unwrap_err();
    assert_eq!(j.status, UNAUTHORIZED);
    assert_eq!(j.error.code, 10);
}

#[test]
fn password_is_400_code_42() {
    let (store, _, key) = issued();
    for k in [key.as_str(), "abc"] {
        let j = authenticate(&params(Some(k), Some("x"), None, None), &store).unwrap_err();
        assert_eq!(j.status, 400);
        assert_eq!(j.error.code, 42);
    }
    let j = authenticate(&params(Some(&key), Some("x"), Some("x"), None), &store).unwrap_err();
    assert_eq!(j.error.code, 42);
}

#[test]
fn token_or_salt_is_400_code_41() {
    let (store, _, key) = issued();
    let j = authenticate(&params(Some(&key), None, Some("x"), None), &store).unwrap_err();
    assert_eq!((j.status, j.error.code), (400, 41));
    let j = authenticate(&params(Some(&key), None, None, Some("x")), &store).unwrap_err();
    assert_eq!((j.status, j.error.code), (400, 41));
    assert_eq!(j.error.message, "Token authentication not supported for LDAP users.");
}

#[test]
fn malformed_key_is_400_code_0() {
    let (store, _, _) = issued();
    let j = authenticate(&params(Some("abc"), None, None, None), &store).unwrap_err();
    assert_eq!((j.status, j.error.code), (BAD_REQUEST, 0));
    assert_eq!(j.error.message, "API key must contain a dot and colon separator");
    assert_eq!(j.error.help_url, None);
}

#[test]
fn unissued_key_is_401_code_44() {
    let (store, _, _) = issued();
    let other = server::key::RawApiKey::generate(None).to_string();
    let j = authenticate(&params(Some(&other), None, None, None), &store).unwrap_err();
    assert_eq!((j.status, j.error.code), (401, 44));
    assert_eq!(j.error.message, "Invalid API key.");
}

#[test]
fn issued_key_passes_with_its_owner() {
    let (store, owner, key) = issued();
    assert_eq!(authenticate(&params(Some(&key), None, None, None), &store).unwrap(), owner);
    let k = check_params(&params(Some(&key), None, None, None)).unwrap();
    assert_eq!(k.to_string(), key);
}

#[test]
fn unknown_algorithm_is_internal_error() {
    let (store, _, key) = issued();
    let other = key.replacen(".SHA256:", ".MD5:", 1);
    let j = authenticate(&params(Some(&other), None, None, None), &store).unwrap_err();
    assert_eq!((j.status, j.error.code), (INTERNAL_SERVER_ERROR, 0));
    assert_eq!(j.error.message, "Internal server error");
}

#[test]
fn resolution_errors_map_to_refusals() {
    let j = reject_resolution(&ApiKeyError::Database("secret detail".to_string()));
    assert_eq!((j.status, j.error.code), (500, 0));
    assert_eq!(j.error.message, "Database error");
    let j = reject_resolution(&ApiKeyError::NotFound);
    assert_eq!((j.status, j.error.code), (401, 44));
    let j = reject_resolution(&ApiKeyError::ParseError(ParseError::InvalidKeyLength(3)));
    assert_eq!((j.status, j.error.code), (400, 0));
    assert_eq!(j.error.message, "Key must be exactly 53, got 3");
}

#[test]
fn error_catalog_codes() {
    assert_eq!(Error::param_missing().code, 10);
    assert_eq!(Error::param_missing().message, "Required parameter is missing.");
    assert_eq!(Error::unauthorized().code, 40);
    assert_eq!(Error::unauthorized().message, "Wrong username or password.");
    assert_eq!(Error::unsupported_token_authentication().code, 41);
    assert_eq!(Error::unsupported_authentication().code, 42);
    assert_eq!(
        Error::unsupported_authentication().message,
        "Provided authentication mechanism not supported. Only 'apiKey' is supported."
    );
    assert_eq!(Error::invalid_api_key().code, 44);
    assert_eq!(Error::generic("boom").code, 0);
    assert_eq!(Error::generic("boom").message, "boom");
}

#[test]
fn error_builders() {
    let e = Error::generic("a").code(70).message("b").url("https://example.org/help");
    assert_eq!(e.code, 70);
    assert_eq!(e.message, "b");
    assert_eq!(e.help_url.as_deref(), Some("https://example.org/help"));
}

#[test]
fn envelopes() {
    let ok: SubsonicResponse<EmptyResponse> = SubsonicResponse::empty_response();
    assert_eq!(ok.status, Status::Succeeded);
    assert_eq!(ok.subsonic_version, "1.16.1");
    assert!(!ok.open_subsonic);
    let failed = Error::invalid_api_key().into_response();
    assert_eq!(failed.status, Status::Failed);
    assert_eq!(failed.data.code, 44);
    let e = SubsonicResponse::error(Error::param_missing());
    assert_eq!(e.status, Status::Failed);
    assert_eq!(e.server_name, "server");
    let back = SubsonicResponse::default(3u8).status(Status::Failed);
    assert_eq!((back.status, back.data), (Status::Failed, 3));
}
