use poem_cookie::CookieKey;

#[test]
fn key_halves_sign_and_encrypt() {
    let bytes: Vec<u8> = (0..64).collect();
    let key = CookieKey::from(&bytes);
    let signing: Vec<u8> = (0..32).collect();
    let encryption: Vec<u8> = (32..64).collect();
    assert_eq!(key.signing(), &signing[..]);
    assert_eq!(key.encryption(), &encryption[..]);
    assert_eq!(key.master(), &bytes[..]);
}

#[test]
fn try_generate_gives_a_full_key() {
    let key = CookieKey::try_generate().unwrap();
    assert_eq!(key.master().len(), 64);
    assert_eq!(key.signing().len(), 32);
    assert_eq!(key.encryption().len(), 32);
    let other = CookieKey::try_generate().unwrap();
    assert_ne!(key.master(), other.master());
}
