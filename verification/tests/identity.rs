use base64::{Engine, engine::general_purpose::URL_SAFE_NO_PAD};
use p256::ecdsa::{Signature, VerifyingKey, signature::Verifier};
use p256::pkcs8::DecodePublicKey;
use zerobeat::{DeviceIdentity, RequestToSign, SecurityError, check_identity_file};

fn verifying_key(identity: &DeviceIdentity) -> VerifyingKey {
    VerifyingKey::from_public_key_der(&identity.public_key_spki_der().unwrap()).unwrap()
}

#[test]
fn challenge_proof_verifies_against_public_key() {
    let identity = DeviceIdentity::generate("cli/0.1.0+1").unwrap();
    let challenge = URL_SAFE_NO_PAD.encode(b"single-use-provision-challenge");
    let signature = identity.sign_challenge(&challenge).unwrap();

    let signature = URL_SAFE_NO_PAD.decode(signature).unwrap();
    let signature = Signature::from_der(&signature).unwrap();
    verifying_key(&identity)
        .verify(b"single-use-provision-challenge", &signature)
        .unwrap();
}

#[test]
fn v5_request_signature_binds_every_canonical_field() {
    let mut identity = DeviceIdentity::generate("cli/0.1.0+1").unwrap();
    identity.bind_credential("device-123", 1);
    let request = RequestToSign::get(
        "api.zerobits.tech",
        "/music/v1/app/search/songs",
        "q=tampar&limit=20",
    );

    let signed = identity.sign_request(request, 1_782_342_000_000).unwrap();
    let signature = URL_SAFE_NO_PAD
        .decode(signed.header("X-ZeroBeat-Request-Signature").unwrap())
        .unwrap();
    let signature = Signature::from_der(&signature).unwrap();

    verifying_key(&identity)
        .verify(signed.canonical.as_bytes(), &signature)
        .unwrap();
    assert_eq!(signed.header("X-ZeroBeat-Signature-Version"), Some("v5"));
    assert_eq!(signed.header("X-ZeroBeat-Request-Counter"), Some("1"));
    assert!(signed.canonical.contains("\nq=tampar&limit=20\n"));
    assert!(signed.canonical.contains("\ndevice-123\n"));
}

#[test]
fn unprovisioned_identity_cannot_sign_requests() {
    let mut identity = DeviceIdentity::generate("cli/0.1.0+1").unwrap();
    let request = RequestToSign::get("h", "/p", "");
    assert!(matches!(
        identity.sign_request(request, 1),
        Err(SecurityError::NotProvisioned)
    ));
}

#[test]
fn malformed_challenge_is_refused() {
    let identity = DeviceIdentity::generate("cli/0.1.0+1").unwrap();
    assert!(matches!(
        identity.sign_challenge("not base64!"),
        Err(SecurityError::InvalidChallenge)
    ));
}

#[test]
fn stored_identity_round_trips() {
    let mut identity = DeviceIdentity::generate("cli/0.1.0+1").unwrap();
    identity.bind_credential("device-9", 3);
    let key = identity.public_key_spki_base64().unwrap();
    let reopened = DeviceIdentity::from_stored(identity.to_stored()).unwrap();
    assert_eq!(reopened.install_id(), identity.install_id());
    assert_eq!(reopened.device_id(), Some("device-9"));
    assert_eq!(reopened.key_version(), 3);
    assert_eq!(reopened.public_key_spki_base64().unwrap(), key);
}

#[test]
fn successive_requests_count_up() {
    let mut identity = DeviceIdentity::generate("cli/0.1.0+1").unwrap();
    identity.bind_credential("device-123", 1);
    identity.sign_request(RequestToSign::get("h", "/a", ""), 1).unwrap();
    let second = identity.sign_request(RequestToSign::get("h", "/a", ""), 2).unwrap();
    assert_eq!(second.header("X-ZeroBeat-Request-Counter"), Some("2"));
    assert_eq!(identity.counter(), 2);
}

#[test]
fn identity_files_must_be_private_regular_files() {
    assert!(check_identity_file(true, false, true).is_ok());
    assert!(matches!(check_identity_file(true, true, true), Err(SecurityError::UnsafeIdentity)));
    assert!(matches!(check_identity_file(true, false, false), Err(SecurityError::UnsafeIdentity)));
    assert_eq!(SecurityError::InvalidKey.message(), "invalid device key");
}

#[test]
fn signed_requests_use_a_lowercase_host_and_hash_the_body() {
    let mut identity = DeviceIdentity::generate("cli/0.1.0+1").unwrap();
    identity.bind_credential("device-123", 1);
    let request = RequestToSign::with_body("post", "API.Example.COM", "/v1/x", "", b"hello".to_vec());
    let signed = identity.sign_request(request, 5).unwrap();
    assert_eq!(signed.header("X-ZeroBeat-Canonical-Host"), Some("api.example.com"));
    assert_eq!(
        signed.header("X-ZeroBeat-Body-SHA256"),
        Some("2cf24dba5fb0a30e26e83b2ac5b9e29e1b161e5c1fa7425e73043362938b9824")
    );
    assert!(signed.canonical.starts_with("zerobeat-v5\nPOST\nhttps://api.example.com\n"));
}
