//! Tokens that are signed with a key of the peer.

use ring::signature;
use ring::signature::KeyPair;
use velcrux::auth::pubkey::{
    create_pubkey_auth_token, verify_pubkey_auth_token, AuthorizedKeys, EXPORTER_SECRET_LEN,
    SSH_PUBKEY_TOKEN_LEN,
};
use velcrux::error::VelcruxError;
use velcrux::text;

fn hex_of(bytes: &[u8]) -> String {
    let mut out = String::new();
    text::push_hex(&mut out, bytes);
    out
}

#[test]
fn test_channel_bound_auth_token_roundtrip() {
    // Generate a random Ed25519 keypair using ring
    let rng = ring::rand::SystemRandom::new();
    let pkcs8_bytes =
        signature::Ed25519KeyPair::generate_pkcs8(&rng).expect("generate keypair");
    let keypair =
        signature::Ed25519KeyPair::from_pkcs8(pkcs8_bytes.as_ref()).expect("parse keypair");

    let exporter_secret = [0x42u8; EXPORTER_SECRET_LEN];
    let token = create_pubkey_auth_token(&keypair, &exporter_secret);
    assert_eq!(token.len(), SSH_PUBKEY_TOKEN_LEN);

    // Verify with matching exporter secret
    let verified_pubkey =
        verify_pubkey_auth_token(&token, &exporter_secret).expect("token verification");
    assert_eq!(verified_pubkey, keypair.public_key().as_ref());

    // Verify with mismatched exporter secret (channel mismatch / replay attack)
    let other_secret = [0x99u8; EXPORTER_SECRET_LEN];
    assert!(verify_pubkey_auth_token(&token, &other_secret).is_err());

    // Corrupted token
    let mut corrupted_token = token.clone();
    corrupted_token[50] ^= 0xFF;
    assert!(verify_pubkey_auth_token(&corrupted_token, &exporter_secret).is_err());
}

#[test]
fn test_authorized_keys_parsing_and_authentication() {
    let rng = ring::rand::SystemRandom::new();
    let pkcs8_bytes =
        signature::Ed25519KeyPair::generate_pkcs8(&rng).expect("generate keypair");
    let keypair =
        signature::Ed25519KeyPair::from_pkcs8(pkcs8_bytes.as_ref()).expect("parse keypair");

    let pubkey_bytes: [u8; 32] = keypair.public_key().as_ref().try_into().unwrap();
    let hex_pubkey = hex_of(&pubkey_bytes);

    let file_content = format!(
        "# Authorized keys\n\
         {} backup-agent\n",
        hex_pubkey
    );

    let auth_keys = AuthorizedKeys::parse(&file_content).expect("parse authorized keys");
    assert_eq!(auth_keys.lookup(&pubkey_bytes), Some("backup-agent"));

    let exporter_secret = [0x77u8; EXPORTER_SECRET_LEN];
    let token = create_pubkey_auth_token(&keypair, &exporter_secret);

    let identity = auth_keys
        .authenticate(&token, &exporter_secret)
        .expect("authenticate peer");
    assert_eq!(identity.name, "backup-agent");
    assert_eq!(identity.issuer_fingerprint, "ssh-pubkey");
    assert_eq!(identity.cert_fingerprint, hex_pubkey);
}

#[test]
fn authorized_keys_in_openssh_form() {
    let key = [7u8; 32];
    let blob = {
        let mut b = vec![0u8, 0, 0, 11];
        b.extend_from_slice(b"ssh-ed25519");
        b.extend_from_slice(&[0, 0, 0, 32]);
        b.extend_from_slice(&key);
        b
    };
    let alphabet = b"ABCDEFGHIJKLMNOPQRSTUVWXYZabcdefghijklmnopqrstuvwxyz0123456789+/";
    let mut base64 = String::new();
    for piece in blob.chunks(3) {
        let mut n = 0u32;
        for k in 0..3 {
            n = n << 8 | *piece.get(k).unwrap_or(&0) as u32;
        }
        for k in 0..4 {
            if k <= piece.len() {
                base64.push(alphabet[(n >> (18 - 6 * k) & 63) as usize] as char);
            } else {
                base64.push('=');
            }
        }
    }
    let keys = AuthorizedKeys::parse(&format!("\nssh-ed25519 {base64} alice laptop\n")).unwrap();
    assert_eq!(keys.lookup(&key), Some("alice laptop"));
    assert_eq!(keys.lookup(&[8u8; 32]), None);
}

#[test]
fn malformed_authorized_keys_are_refused() {
    assert!(matches!(AuthorizedKeys::parse("nonsense alice"), Err(VelcruxError::Config(_))));
    assert!(AuthorizedKeys::parse("# only a comment\n\n").is_ok());
}

#[test]
fn unknown_key_is_refused() {
    let rng = ring::rand::SystemRandom::new();
    let pkcs8 = signature::Ed25519KeyPair::generate_pkcs8(&rng).unwrap();
    let keypair = signature::Ed25519KeyPair::from_pkcs8(pkcs8.as_ref()).unwrap();
    let secret = [1u8; EXPORTER_SECRET_LEN];
    let token = create_pubkey_auth_token(&keypair, &secret);
    assert!(AuthorizedKeys::new().authenticate(&token, &secret).is_err());
    assert!(verify_pubkey_auth_token(&token[..95], &secret).is_err());
}
