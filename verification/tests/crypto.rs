use morsh::crypto::base64_key::Base64Key;
use morsh::crypto::nonce::Nonce;
use morsh::crypto::prng::fill_from;
use morsh::crypto::prng::put;
use morsh::crypto::prng::u32_from;
use morsh::crypto::prng::u64_from;
use morsh::crypto::prng::u8_from;
use morsh::crypto::prng::Prng;
use morsh::crypto::prng::RandomError;
use morsh::crypto::session::text_limit;
use morsh::crypto::session::CryptoError;
use morsh::crypto::session::Message;
use morsh::crypto::session::Session;
use morsh::crypto::unique;

#[test]
fn encrypt_decrypt_roundtrip() {
    let key = Base64Key::random().unwrap();
    let mut session = Session::new(*key.data());

    let plaintext = b"Hello, Mosh!";
    let msg = Message::new(Nonce::from_val(42), plaintext.to_vec());

    let encrypted = session.encrypt(&msg);
    let decrypted = session.decrypt(&encrypted).unwrap();

    assert_eq!(decrypted.nonce, msg.nonce);
    assert_eq!(decrypted.text, plaintext);
}

#[test]
fn different_keys_fail() {
    let key1 = Base64Key::random().unwrap();
    let key2 = Base64Key::random().unwrap();
    let mut session1 = Session::new(*key1.data());
    let mut session2 = Session::new(*key2.data());

    let msg = Message::new(Nonce::from_val(1), b"secret".to_vec());
    let encrypted = session1.encrypt(&msg);

    assert!(session2.decrypt(&encrypted).is_err());
}

#[test]
fn tampered_ciphertext_fails() {
    let key = Base64Key::random().unwrap();
    let mut session = Session::new(*key.data());

    let msg = Message::new(Nonce::from_val(7), b"test data".to_vec());
    let mut encrypted = session.encrypt(&msg);

    let last = encrypted.len() - 1;
    encrypted[last] ^= 0x01;

    assert!(session.decrypt(&encrypted).is_err());
}

#[test]
fn flipped_bits_are_refused() {
    let mut session = Session::new([3; 16]);
    let packet = session.encrypt(&Message::new(Nonce::from_val(7), b"twenty bytes of text".to_vec()));
    for i in 0..packet.len() * 8 {
        let mut bad = packet.clone();
        bad[i / 8] ^= 1 << (i % 8);
        assert!(matches!(session.decrypt(&bad), Err(CryptoError::IntegrityCheckFailed)), "bit {i}");
    }
    assert!(session.decrypt(&packet).is_ok());
}

#[test]
fn long_texts_are_taken() {
    assert_eq!(text_limit() as u64, 0xf_ffff_ffff);
    let mut session = Session::new([4; 16]);
    let text = vec![5u8; 1_048_576];
    let packet = session.encrypt(&Message::new(Nonce::from_val(8), text.clone()));
    assert_eq!(packet.len(), text.len() + 24);
    assert_eq!(session.decrypt(&packet).unwrap().text, text);
}

#[test]
fn wrong_nonce_fails() {
    let key = Base64Key::random().unwrap();
    let mut session = Session::new(*key.data());

    let msg = Message::new(Nonce::from_val(100), b"test".to_vec());
    let encrypted = session.encrypt(&msg);

    let mut bad = encrypted.clone();
    bad[0] ^= 0xFF;

    assert!(session.decrypt(&bad).is_err());
}

#[test]
fn too_short_fails() {
    let key = Base64Key::random().unwrap();
    let mut session = Session::new(*key.data());
    assert!(session.decrypt(&[0u8; 10]).is_err());
}

#[test]
fn empty_plaintext() {
    let key = Base64Key::random().unwrap();
    let mut session = Session::new(*key.data());

    let msg = Message::new(Nonce::from_val(0), vec![]);
    let encrypted = session.encrypt(&msg);
    assert_eq!(encrypted.len(), 8 + 16);

    let decrypted = session.decrypt(&encrypted).unwrap();
    assert!(decrypted.text.is_empty());
}

#[test]
fn large_payload() {
    let key = Base64Key::random().unwrap();
    let mut session = Session::new(*key.data());

    let payload = vec![0xABu8; 1500];
    let msg = Message::new(Nonce::from_val(999), payload.clone());
    let encrypted = session.encrypt(&msg);
    let decrypted = session.decrypt(&encrypted).unwrap();
    assert_eq!(decrypted.text, payload);
}

#[test]
fn crypto_errors_are_told_apart() {
    let mut session = Session::new([7u8; 16]);
    assert_eq!(session.decrypt(&[0u8; 23]).unwrap_err(), CryptoError::TooShort);
    assert_eq!(session.decrypt(&[0u8; 24]).unwrap_err(), CryptoError::IntegrityCheckFailed);
    assert_eq!(CryptoError::TooShort.message(), "Ciphertext must contain nonce and tag");
    assert_eq!(CryptoError::IntegrityCheckFailed.message(), "Packet failed integrity check");
}

#[test]
fn ciphertext_hides_the_text() {
    let mut session = Session::new([3u8; 16]);
    let text = b"a text of more than sixteen bytes".to_vec();
    let packet = session.encrypt(&Message::new(Nonce::from_val(5), text.clone()));
    assert_eq!(packet.len(), 8 + text.len() + 16);
    assert_eq!(&packet[..8], &[0, 0, 0, 0, 0, 0, 0, 5]);
    assert_ne!(&packet[8..8 + text.len()], &text[..]);
    let again = session.encrypt(&Message::new(Nonce::from_val(5), text.clone()));
    assert_eq!(packet, again);
    let other = session.encrypt(&Message::new(Nonce::from_val(6), text));
    assert_ne!(packet[8..], other[8..]);
}

#[test]
fn session_key_lasts() {
    let session = Session::new([0u8; 16]);
    assert!(session.lasts(0x7fff_ffff_ffff));
    assert!(!session.lasts(0x8000_0000_0000));
    assert!(!session.lasts(u64::MAX));
    let mut used = Session::new([0u8; 16]);
    used.encrypt(&Message::new(Nonce::from_val(0), vec![0u8; 17]));
    assert!(used.lasts(0x7fff_ffff_fffd));
    assert!(!used.lasts(0x7fff_ffff_fffe));
}

#[test]
fn key_roundtrip() {
    let key = Base64Key::random().unwrap();
    let printable = key.printable_key();
    assert_eq!(printable.len(), 22);
    let parsed = Base64Key::from_printable(&printable).unwrap();
    assert_eq!(key, parsed);
}

#[test]
fn key_from_raw_bytes() {
    let bytes = [0x41u8; 16];
    let key = Base64Key::from(bytes);
    let printable = key.printable_key();
    assert_eq!(printable.len(), 22);
    let parsed = Base64Key::from_printable(&printable).unwrap();
    assert_eq!(key, parsed);
}

#[test]
fn key_bad_length() {
    assert!(Base64Key::from_printable("short").is_err());
    assert!(Base64Key::from_printable("this-is-way-too-long-key!!").is_err());
}

#[test]
fn key_constant_time_eq() {
    let a = Base64Key::from([0x41u8; 16]);
    let b = Base64Key::from([0x42u8; 16]);
    assert_eq!(a, a);
    assert_ne!(a, b);
}

#[test]
fn key_text_is_exact() {
    assert_eq!(Base64Key::from([0u8; 16]).printable_key(), "AAAAAAAAAAAAAAAAAAAAAA");
    assert_eq!(Base64Key::from([0x41u8; 16]).printable_key(), "QUFBQUFBQUFBQUFBQUFBQQ");
    assert_eq!(Base64Key::from([0xffu8; 16]).printable_key(), "/////////////////////w");
    assert_eq!(Base64Key::from([9u8; 16]).into_bytes(), [9u8; 16]);
}

#[test]
fn key_errors() {
    assert_eq!(
        Base64Key::from_printable("short").unwrap_err(),
        "Key must be 22 characters, got 5"
    );
    assert!(Base64Key::from_printable("AAAAAAAAAAAAAAAAAAAA-A")
        .unwrap_err()
        .starts_with("Invalid base64: "));
    assert!(Base64Key::from_printable("AAAAAAAAAAAAAAAAAAAAAB").is_err());
    assert!(Base64Key::from_printable("AAAAAAAAAAAAAAAAAAAAA=").is_err());
}

#[test]
fn nonce_roundtrip() {
    let val: u64 = (1u64 << 63) | 42;
    let n = Nonce::from_val(val);
    assert_eq!(n.val(), val);
    assert_eq!(n.cc_str(), val.to_be_bytes());
}

#[test]
fn nonce_from_wire() {
    let wire = [0x00, 0x00, 0x00, 0x00, 0x00, 0x00, 0x00, 0x2a];
    let n = Nonce::from_bytes(&wire);
    assert_eq!(n.val(), 42);
    assert_eq!(&n.data()[..4], &[0, 0, 0, 0]);
}

#[test]
fn nonce_direction_bit() {
    let server_val = 0u64;
    let client_val = 1u64 << 63;
    let n_server = Nonce::from_val(server_val);
    let n_client = Nonce::from_val(client_val);
    assert_ne!(n_server, n_client);
    assert_eq!(n_server.val(), 0);
    assert_eq!(n_client.val(), client_val);
}

#[test]
fn nonce_raw() {
    let raw = [1, 2, 3, 4, 5, 6, 7, 8, 9, 10, 11, 12];
    let n = Nonce::from_raw(raw);
    assert_eq!(n.data(), &raw);
    assert_eq!(n.cc_str(), [5, 6, 7, 8, 9, 10, 11, 12]);
    assert_eq!(Nonce::LEN, 12);
    assert!(n.same(&Nonce::from_raw(raw)));
    assert!(!n.same(&Nonce::from_val(0)));
}

#[test]
fn fill_works() {
    let mut buf = [0u8; 32];
    Prng::fill(&mut buf).unwrap();
    assert_ne!(buf, [0u8; 32]);
}

#[test]
fn randomness() {
    let mut prng = Prng;
    let a = prng.u64().unwrap();
    let b = prng.u64().unwrap();
    assert_ne!(a, b);
}

#[test]
fn small_random_numbers_vary() {
    let mut prng = Prng;
    let bytes: Vec<u8> = (0..64).map(|_| prng.u8().unwrap()).collect();
    assert!(bytes.iter().any(|b| *b != bytes[0]));
    let words: Vec<u32> = (0..8).map(|_| prng.u32().unwrap()).collect();
    assert!(words.iter().any(|w| *w != words[0]));
}

#[test]
fn unique_counts() {
    let mut counter = 0;
    assert_eq!(unique(&mut counter), 0);
    assert_eq!(unique(&mut counter), 1);
    assert_eq!(counter, 2);
}

#[test]
fn random_bytes_are_put_in_place() {
    let mut buf = [0u8; 3];
    put(&mut buf, &vec![7, 8, 9]);
    assert_eq!(buf, [7, 8, 9]);
}

#[test]
fn answers_of_the_source_are_used() {
    assert_eq!(u8_from(Ok(vec![0xfe])), Ok(0xfe));
    assert_eq!(u8_from(Err(RandomError)), Err(RandomError));
    assert_eq!(u32_from(Ok(vec![0xff, 2, 3, 4])), Ok(u32::from_ne_bytes([0xff, 2, 3, 4])));
    assert_eq!(u32_from(Err(RandomError)), Err(RandomError));
    let eight = [1, 2, 3, 4, 5, 6, 7, 8];
    assert_eq!(u64_from(Ok(eight.to_vec())), Ok(u64::from_ne_bytes(eight)));
    assert_eq!(u64_from(Err(RandomError)), Err(RandomError));
    let mut buf = [5u8; 2];
    assert_eq!(fill_from(&mut buf, Err(RandomError)), Err(RandomError));
    assert_eq!(buf, [5, 5]);
    assert_eq!(fill_from(&mut buf, Ok(vec![8, 9])), Ok(()));
    assert_eq!(buf, [8, 9]);
    assert_eq!(Prng::fill(&mut []), Ok(()));
    let key = Base64Key::from_answer(Ok(vec![3; 16])).unwrap();
    assert_eq!(format!("{key:?}"), format!("Base64Key({})", key.printable_key()));
    assert_eq!(key.debug_text(), "Base64Key(AwMDAwMDAwMDAwMDAwMDAw)");
    assert_eq!(key.data(), &[3u8; 16]);
    assert!(Base64Key::from_answer(Err(RandomError)).is_err());
}
