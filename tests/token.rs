use chacha20poly1305::aead::{Aead, KeyInit};
use chacha20poly1305::{Key, XChaCha20Poly1305, XNonce};
use ppdrive::token::{
    client_id_of, create_client, generate_token, regenerate_token, verify_client, AppSecrets,
};
use ppdrive::AppError;

fn secrets() -> AppSecrets {
    let key: Vec<u8> = (0u8..32).collect();
    let nonce: Vec<u8> = (100u8..124).collect();
    AppSecrets::new(key, nonce, b"jwt secret".to_vec()).unwrap()
}

#[test]
fn test_keygen() -> Result<(), AppError> {
    let s = secrets();
    let keygen = create_client(&s);
    assert!(keygen.is_ok());
    let client = keygen?;
    let registered = vec![client.id.clone()];
    let verified = verify_client(&s, &client.token, &registered)?;
    assert_eq!(verified, client.id);
    Ok(())
}

#[test]
fn token_round_trip() -> Result<(), AppError> {
    let s = secrets();
    let id = "6f1c2a9e-4b7d-4c1e-9a55-0d2f3b8c7e10";
    let token = generate_token(&s, id)?;
    assert_eq!(client_id_of(&s, &token)?, id);
    // upper-case digits decode the same
    assert_eq!(client_id_of(&s, &token.to_uppercase())?, id);
    // ciphertext plus a 16-byte tag, two digits per byte
    assert_eq!(token.len(), 2 * (id.len() + 16));
    assert_ne!(token, hex::encode(id));
    assert!(token.chars().all(|c| c.is_ascii_hexdigit() && !c.is_ascii_uppercase()));
    // fixed key and nonce: the same identifier gives the same token
    assert_eq!(generate_token(&s, id)?, token);
    Ok(())
}

#[test]
fn verify_needs_a_registered_client() -> Result<(), AppError> {
    let s = secrets();
    let id = "client-a";
    let token = generate_token(&s, id)?;
    let others = vec!["client-b".to_string()];
    assert!(matches!(
        verify_client(&s, &token, &others),
        Err(AppError::AuthorizationError(_))
    ));
    let all = vec!["client-b".to_string(), id.to_string()];
    assert_eq!(verify_client(&s, &token, &all)?, id);
    Ok(())
}

#[test]
fn tampered_tokens_are_rejected() -> Result<(), AppError> {
    let s = secrets();
    let id = "client-a";
    let token = generate_token(&s, id)?;
    let registered = vec![id.to_string()];
    let bytes = token.as_bytes();
    for i in 0..bytes.len() {
        let mut t = bytes.to_vec();
        t[i] = if t[i] == b'0' { b'1' } else { b'0' };
        let t = String::from_utf8(t).unwrap();
        assert!(matches!(
            verify_client(&s, &t, &registered),
            Err(AppError::AuthorizationError(_))
        ));
    }
    for bad in ["", "zz", "abc", "00"] {
        assert!(matches!(
            verify_client(&s, bad, &registered),
            Err(AppError::AuthorizationError(_))
        ));
    }
    Ok(())
}

#[test]
fn other_key_rejects_token() -> Result<(), AppError> {
    let s = secrets();
    let token = generate_token(&s, "client-a")?;
    let other = AppSecrets::new(vec![9u8; 32], (100u8..124).collect(), vec![]).unwrap();
    assert!(matches!(
        client_id_of(&other, &token),
        Err(AppError::AuthorizationError(_))
    ));
    Ok(())
}

#[test]
fn regenerate_keeps_identifier() -> Result<(), AppError> {
    let s = secrets();
    let clients = vec!["client-a".to_string()];
    let t1 = regenerate_token(&s, "client-a", &clients)?;
    assert_eq!(t1, generate_token(&s, "client-a")?);
    assert_eq!(client_id_of(&s, &t1)?, "client-a");
    assert!(matches!(
        regenerate_token(&s, "client-z", &clients),
        Err(AppError::NotFound(_))
    ));
    Ok(())
}

#[test]
fn secrets_sizes_checked() {
    assert!(matches!(
        AppSecrets::new(vec![0; 31], vec![0; 24], vec![]),
        Err(AppError::InitError(_))
    ));
    assert!(matches!(
        AppSecrets::new(vec![0; 32], vec![0; 12], vec![]),
        Err(AppError::InitError(_))
    ));
    let s = AppSecrets::new(vec![1; 32], vec![2; 24], vec![3; 5]).unwrap();
    assert_eq!(s.secret_key(), &[1u8; 32][..]);
    assert_eq!(s.nonce(), &[2u8; 24][..]);
    assert_eq!(s.jwt_secret(), &[3u8; 5][..]);
}

#[test]
fn fresh_clients_differ() -> Result<(), AppError> {
    let s = secrets();
    let a = create_client(&s)?;
    let b = create_client(&s)?;
    assert_eq!(a.id.len(), 36);
    for (i, c) in a.id.chars().enumerate() {
        if [8, 13, 18, 23].contains(&i) {
            assert_eq!(c, '-');
        } else {
            assert!(c.is_ascii_digit() || ('a'..='f').contains(&c));
        }
    }
    assert_ne!(a.id, b.id);
    assert_ne!(a.token, b.token);
    Ok(())
}

#[test]
fn non_text_plaintext_rejected() {
    let s = secrets();
    let cipher = XChaCha20Poly1305::new(Key::from_slice(s.secret_key()));
    let ct = cipher.encrypt(XNonce::from_slice(s.nonce()), &[0xffu8, 0xfe][..]).unwrap();
    let token = hex::encode(ct);
    assert!(matches!(
        client_id_of(&s, &token),
        Err(AppError::AuthorizationError(_))
    ));
    // the same construction over text is accepted
    let ct = cipher.encrypt(XNonce::from_slice(s.nonce()), &b"abc"[..]).unwrap();
    assert_eq!(client_id_of(&s, &hex::encode(ct)).unwrap(), "abc");
}
