//! Secrets, verifiers and receipts.

use lenso_service_account::crypto::{
    credential_id, digest, encode_base64, hash_secret, hash_secret_with_salt, random_material,
    verify_secret, CredentialSecret, ReceiptCipher, SecretBytes, SecretText,
};
use lenso_service_account::error::CryptoError;
use lenso_service_account::rows::CommandClaim;

#[test]
fn secret_round_trip_requires_the_same_pepper() {
    let secret = CredentialSecret::generate().ok().expect("secret");
    let verifier = secret
        .argon2id_verifier(b"pepper one with enough material")
        .ok()
        .expect("hash");
    assert!(verifier.starts_with("$argon2id$v=19$"));
    assert!(verify_secret(
        &secret.expose(),
        b"pepper one with enough material",
        &verifier
    ));
    assert!(!verify_secret(
        &secret.expose(),
        b"different pepper with enough material",
        &verifier
    ));
    assert_eq!(
        credential_id(&secret.expose()),
        Some(secret.credential_id.as_str())
    );
    assert!(!secret.debug_text().contains(&secret.expose()));
}

#[test]
fn receipt_cipher_binds_caller_operation_and_key() {
    let cipher = ReceiptCipher::derive(b"receipt key material at least thirty-two bytes");
    let value = br#"{"revision":"2","secret":null}"#;
    let (nonce, ciphertext) = cipher
        .encrypt(value, b"caller\0rotate\0key")
        .ok()
        .expect("encrypt");
    let decoded = cipher
        .decrypt(&nonce, &ciphertext, b"caller\0rotate\0key")
        .ok()
        .expect("decrypt");
    assert_eq!(decoded, value);
    let value: serde_json::Value = serde_json::from_slice(value).expect("value");
    let decoded: serde_json::Value = serde_json::from_slice(&decoded).expect("decoded");
    assert_eq!(decoded, value);
    assert!(cipher
        .decrypt(&nonce, &ciphertext, b"caller\0rotate\0other")
        .is_err());
}

#[test]
fn command_receipt_debug_is_redacted() {
    let claim = CommandClaim::CompletedSuccess {
        nonce: b"nonce secret".to_vec(),
        ciphertext: b"ciphertext secret".to_vec(),
    };
    let debug = claim.debug_text();
    assert!(debug.contains("<redacted>"));
    assert!(!debug.contains("nonce secret"));
    assert!(!debug.contains("ciphertext secret"));
}

#[test]
fn receipt_cipher_debug_never_exposes_key_material() {
    let receipt_cipher = ReceiptCipher::derive(b"receipt material that is deliberately secret");
    assert!(!receipt_cipher.debug_text().contains("deliberately secret"));
    assert_eq!(receipt_cipher.debug_text(), "ReceiptCipher(<redacted>)");
}

#[test]
fn digest_is_sha_256() {
    assert_eq!(
        digest(b"abc"),
        [
            0xba, 0x78, 0x16, 0xbf, 0x8f, 0x01, 0xcf, 0xea, 0x41, 0x41, 0x40, 0xde, 0x5d, 0xae,
            0x22, 0x23, 0xb0, 0x03, 0x61, 0xa3, 0x96, 0x17, 0x7a, 0x9c, 0xb4, 0x10, 0xff, 0x61,
            0xf2, 0x00, 0x15, 0xad
        ]
    );
}

#[test]
fn base64_is_url_safe_and_unpadded() {
    assert_eq!(encode_base64(&[0xfb, 0xff]), "-_8");
    assert_eq!(encode_base64(b"lenso"), "bGVuc28");
    assert_eq!(encode_base64(b""), "");
    assert_eq!(encode_base64(&[0, 16, 131]), "ABCD");
    assert_eq!(encode_base64(&[0xfb, 0xff, 0xbf]), "-_-_");
    assert_eq!(encode_base64(&[104, 176, 191, 212]), "aLC_1A");
    assert_eq!(encode_base64(&[0xff]), "_w");
}

#[test]
fn random_material_has_the_asked_length_and_varies() {
    let first = random_material(32).expect("random");
    let second = random_material(32).expect("random");
    assert_eq!(first.len(), 32);
    assert_ne!(first, second);
    assert_eq!(random_material(0).expect("nothing to ask for"), Vec::<u8>::new());
}

#[test]
fn secrets_are_made_of_their_random_parts() {
    let secret = CredentialSecret::from_random(&[0_u8; 18], &[0xff_u8; 32]);
    assert_eq!(secret.credential_id, format!("sac_{}", "A".repeat(24)));
    assert_eq!(
        secret.expose(),
        format!(
            "lenso_sa_sac_{}.{}8",
            "A".repeat(24),
            "_".repeat(42)
        )
    );
    assert_eq!(
        secret.debug_text(),
        format!(
            "CredentialSecret {{ credential_id: \"sac_{}\", wire: \"<redacted>\" }}",
            "A".repeat(24)
        )
    );
    let other = CredentialSecret::generate().ok().expect("secret");
    assert_ne!(other.expose(), secret.expose());
}

#[test]
fn generated_secrets_have_fixed_lengths_and_alphabet() {
    let secret = CredentialSecret::generate().ok().expect("secret");
    let id = secret.credential_id.clone();
    let wire = secret.expose();
    let base64 = |text: &str| {
        text.chars().all(|c| c.is_ascii_alphanumeric() || c == '-' || c == '_')
    };
    assert_eq!(id.len(), 28);
    assert!(id.starts_with("sac_"));
    assert!(base64(&id));
    assert_eq!(wire.len(), 81);
    assert_eq!(&wire[..9], "lenso_sa_");
    assert_eq!(&wire[9..37], id);
    assert_eq!(&wire[37..38], ".");
    assert!(base64(&wire[38..]));
    assert!(secret.debug_text().contains("<redacted>"));
    assert!(!secret.debug_text().contains(&wire));
}

#[test]
fn malformed_secrets_name_no_credential() {
    let material = "m".repeat(32);
    assert_eq!(
        credential_id(&format!("lenso_sa_id-1.{material}")),
        Some("id-1")
    );
    for malformed in [
        String::new(),
        "lenso_sa_".to_owned(),
        "lenso_sa_id".to_owned(),
        format!("lenso_sa_.{material}"),
        format!("other_id.{material}"),
        format!("lenso_sa_i d.{material}"),
        format!("lenso_sa_id.{}", "m".repeat(31)),
        format!("lenso_sa_id.{}", "m".repeat(129)),
        format!("lenso_sa_id.{material}."),
        format!("lenso_sa_{}.{material}", "i".repeat(129)),
        format!("lenso_sa_id.{}\u{e9}", "m".repeat(40)),
    ] {
        assert_eq!(credential_id(&malformed), None);
    }
    assert!(credential_id(&format!("lenso_sa_{}.{}", "i".repeat(128), "m".repeat(128))).is_some());
}

#[test]
fn verifiers_depend_on_salt_secret_and_pepper() {
    let one = hash_secret_with_salt("secret", b"pepper", &[1_u8; 16]).ok().expect("hash");
    let again = hash_secret_with_salt("secret", b"pepper", &[1_u8; 16]).ok().expect("hash");
    let salted = hash_secret_with_salt("secret", b"pepper", &[2_u8; 16]).ok().expect("hash");
    assert_eq!(one, again);
    assert_ne!(one, salted);
    assert!(verify_secret("secret", b"pepper", &one));
    assert!(verify_secret("secret", b"pepper", &salted));
    assert!(!verify_secret("secret2", b"pepper", &one));
    // The zero byte keeps secret and pepper apart.
    assert!(!verify_secret("secre", b"tpepper", &one));
    assert!(verify_secret("secret", b"pepper", &hash_secret("secret", b"pepper").ok().expect("hash")));
}

#[test]
fn foreign_verifiers_accept_nothing() {
    assert!(!verify_secret("secret", b"pepper", "not a verifier"));
    let verifier = hash_secret("secret", b"pepper").ok().expect("hash");
    let renamed = verifier.replace("$argon2id$", "$argon2i$");
    assert!(!verify_secret("secret", b"pepper", &renamed));
    let cut = &verifier[..verifier.rfind('$').expect("parts")];
    assert!(!verify_secret("secret", b"pepper", cut));
}

#[test]
fn receipts_open_only_as_they_were_sealed() {
    let cipher = ReceiptCipher::derive(b"key one");
    let other = ReceiptCipher::derive(b"key two");
    let ciphertext = cipher
        .encrypt_with_nonce(&[7_u8; 12], b"receipt", b"aad")
        .ok()
        .expect("encrypt");
    assert_eq!(ciphertext.len(), b"receipt".len() + 16);
    assert_eq!(
        cipher.decrypt(&[7_u8; 12], &ciphertext, b"aad").ok().expect("decrypt"),
        b"receipt"
    );
    assert!(matches!(
        cipher.decrypt(&[7_u8; 11], &ciphertext, b"aad"),
        Err(CryptoError::ReceiptDecryption)
    ));
    assert!(cipher.decrypt(&[8_u8; 12], &ciphertext, b"aad").is_err());
    assert!(other.decrypt(&[7_u8; 12], &ciphertext, b"aad").is_err());
    let mut changed = ciphertext.clone();
    changed[0] ^= 1;
    assert!(cipher.decrypt(&[7_u8; 12], &changed, b"aad").is_err());
    let (nonce, _) = cipher.encrypt(b"receipt", b"aad").ok().expect("encrypt");
    let (again, _) = cipher.encrypt(b"receipt", b"aad").ok().expect("encrypt");
    assert_ne!(nonce, again);
}

#[test]
fn guarded_values_keep_what_they_were_given() {
    assert_eq!(SecretBytes::new(vec![1, 2, 3]).as_slice(), &[1, 2, 3]);
    assert_eq!(SecretText::new("text".to_owned()).as_str(), "text");
}

#[test]
fn verifiers_state_their_parameters_and_absurd_ones_are_refused() {
    let verifier = hash_secret_with_salt("secret", b"pepper", &[7_u8; 16])
        .ok()
        .expect("hash");
    assert!(verifier.starts_with("$argon2id$v=19$m=19456,t=2,p=1$"));
    assert!(verify_secret("secret", b"pepper", &verifier));
    for lanes in ["p=536870912", "p=4294967295", "p=99999999999", "p=16777216"] {
        assert!(!verify_secret(
            "secret",
            b"pepper",
            &verifier.replace("p=1", lanes)
        ));
    }
    // Where a parameter is repeated, its last value counts.
    assert!(verify_secret(
        "secret",
        b"pepper",
        &verifier.replace("p=1", "p=999999999,p=1")
    ));
    assert!(!verify_secret(
        "secret",
        b"pepper",
        &verifier.replace("p=1", "p=1,p=999999999")
    ));
    assert!(!verify_secret("secret", b"pepper", &verifier.replace("argon2id", "argon2i")));
}

#[test]
fn receipts_open_under_a_cipher_that_is_derived_anew() {
    let (nonce, ciphertext) = ReceiptCipher::derive(b"key one")
        .encrypt(b"receipt", b"caller")
        .ok()
        .expect("encrypt");
    let restarted = ReceiptCipher::derive(b"key one");
    assert_eq!(
        restarted.decrypt(&nonce, &ciphertext, b"caller").ok().expect("decrypt"),
        b"receipt"
    );
    assert!(matches!(
        restarted.decrypt(&nonce[..11], &ciphertext, b"caller"),
        Err(CryptoError::ReceiptDecryption)
    ));
}
