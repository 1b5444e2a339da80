use openssl::error::ErrorStack;
use session_store::keys::{
    key_from_bytes, key_from_draw, mint_key, SessionError, SESSION_KEY_BYTES,
};

#[test]
fn key_is_base64_of_its_bytes() {
    assert_eq!(key_from_bytes(&vec![0u8; 16]), "AAAAAAAAAAAAAAAAAAAAAA==");
    assert_eq!(key_from_bytes(&vec![0xffu8; 16]), "/////////////////////w==");
    let counting: Vec<u8> = (0u8..16).collect();
    assert_eq!(key_from_bytes(&counting), "AAECAwQFBgcICQoLDA0ODw==");
    assert_eq!(key_from_bytes(&b"sixteen byte key".to_vec()), "c2l4dGVlbiBieXRlIGtleQ==");
}

#[test]
fn minted_key_has_the_shape_of_sixteen_bytes() {
    assert_eq!(SESSION_KEY_BYTES, 16);
    let key = mint_key().unwrap();
    assert_eq!(key.len(), 24);
    assert!(key.ends_with("=="));
    assert!(key[..22]
        .chars()
        .all(|c| c.is_ascii_alphanumeric() || c == '+' || c == '/'));
}

#[test]
fn minted_keys_differ() {
    let mut seen: Vec<String> = Vec::new();
    let mut i = 0;
    while i < 200 {
        let key = mint_key().unwrap();
        assert!(!seen.contains(&key));
        seen.push(key);
        i += 1;
    }
}

#[test]
fn entropy_failure_is_an_error_value() {
    let failure: Result<String, SessionError> = Err(SessionError::EntropyFailure);
    assert_eq!(failure, Err(SessionError::EntropyFailure));
}

#[test]
fn a_draw_that_filled_the_buffer_gives_its_key() {
    let counting: Vec<u8> = (0u8..16).collect();
    assert_eq!(
        key_from_draw(Ok(()), &counting),
        Ok(String::from("AAECAwQFBgcICQoLDA0ODw=="))
    );
    assert_eq!(
        key_from_draw(Ok(()), &vec![0u8; 16]),
        Ok(String::from("AAAAAAAAAAAAAAAAAAAAAA=="))
    );
}

#[test]
fn a_draw_that_reported_an_error_gives_no_key() {
    let counting: Vec<u8> = (0u8..16).collect();
    assert_eq!(
        key_from_draw(Err(ErrorStack::get()), &counting),
        Err(SessionError::EntropyFailure)
    );
}
