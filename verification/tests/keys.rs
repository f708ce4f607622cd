use diskuto::hash::SHA512;
use diskuto::keys::{ParseError, Signature, UserID};
use sodiumoxide::crypto::sign;

fn key_pair(n: u8) -> (sign::PublicKey, sign::SecretKey) {
    sign::keypair_from_seed(&sign::Seed([n; 32]))
}

#[test]
fn user_id_takes_thirty_two_bytes() {
    let id = UserID::from_vec(vec![7u8; 32]).unwrap();
    assert_eq!(id.bytes(), &[7u8; 32][..]);
    assert_eq!(UserID::from_bytes(&[7u8; 32]).unwrap(), id);
}

#[test]
fn user_id_of_wrong_length_is_refused() {
    assert_eq!(UserID::from_vec(vec![7u8; 31]), Err(ParseError::InvalidLength));
    assert_eq!(UserID::from_vec(vec![7u8; 33]), Err(ParseError::InvalidLength));
    assert_eq!(UserID::from_vec(vec![]), Err(ParseError::InvalidLength));
    assert_eq!(UserID::from_bytes(&[1u8; 64]), Err(ParseError::InvalidLength));
}

#[test]
fn signature_takes_sixty_four_bytes() {
    let signature = Signature::from_vec(vec![9u8; 64]).unwrap();
    assert_eq!(signature.bytes(), &[9u8; 64][..]);
    assert_eq!(Signature::from_vec(vec![9u8; 63]), Err(ParseError::InvalidLength));
    assert_eq!(Signature::from_bytes(&[9u8; 32]), Err(ParseError::InvalidLength));
}

#[test]
fn user_id_base58_of_zero_bytes_is_all_ones() {
    let id = UserID::from_vec(vec![0u8; 32]).unwrap();
    assert_eq!(id.to_base58(), "1".repeat(32));
    assert_eq!(UserID::from_base58(&"1".repeat(32)).unwrap(), id);
}

#[test]
fn user_id_base58_round_trip() {
    let (public, _) = key_pair(3);
    let id = UserID::from_bytes(&public.0).unwrap();
    let text = id.to_base58();
    assert_ne!(text.as_bytes(), id.bytes());
    assert_eq!(UserID::from_base58(&text).unwrap(), id);
}

#[test]
fn user_id_base58_known_value() {
    // 32 bytes 0x00..0x1f in the Bitcoin alphabet.
    let bytes: Vec<u8> = (0u8..32).collect();
    let id = UserID::from_vec(bytes).unwrap();
    assert_eq!(id.to_base58(), bs58::encode((0u8..32).collect::<Vec<u8>>()).into_string());
    assert_eq!(UserID::from_base58("1thX6LZfHDZZKUs92febYZhYRcXddmzfzF2NvTkPNE").unwrap(), id);
}

#[test]
fn base58_with_a_letter_outside_the_alphabet_is_invalid_encoding() {
    assert_eq!(UserID::from_base58("0OIl"), Err(ParseError::InvalidEncoding));
    assert_eq!(Signature::from_base58("not base58!"), Err(ParseError::InvalidEncoding));
}

#[test]
fn base58_of_wrong_length_is_invalid_length() {
    assert_eq!(UserID::from_base58("abc"), Err(ParseError::InvalidLength));
    assert_eq!(UserID::from_base58(""), Err(ParseError::InvalidLength));
    let id = UserID::from_vec(vec![5u8; 32]).unwrap();
    assert_eq!(Signature::from_base58(&id.to_base58()), Err(ParseError::InvalidLength));
}

#[test]
fn signature_base58_round_trip() {
    let (_, secret) = key_pair(4);
    let signed = sign::sign_detached(b"hello", &secret);
    let signature = Signature::from_bytes(&signed.to_bytes()).unwrap();
    let text = signature.to_base58();
    assert_eq!(Signature::from_base58(&text).unwrap(), signature);
}

#[test]
fn verify_accepts_a_true_signature() {
    let (public, secret) = key_pair(1);
    let message = b"an item".to_vec();
    let signed = sign::sign_detached(&message, &secret);
    let id = UserID::from_bytes(&public.0).unwrap();
    let signature = Signature::from_bytes(&signed.to_bytes()).unwrap();
    assert!(id.verify(&message, &signature));
}

#[test]
fn verify_refuses_other_bytes_other_keys_and_other_signatures() {
    let (public, secret) = key_pair(1);
    let (other_public, other_secret) = key_pair(2);
    let message = b"an item".to_vec();
    let signed = sign::sign_detached(&message, &secret);
    let id = UserID::from_bytes(&public.0).unwrap();
    let other_id = UserID::from_bytes(&other_public.0).unwrap();
    let signature = Signature::from_bytes(&signed.to_bytes()).unwrap();
    assert!(!id.verify(b"another item", &signature));
    assert!(!other_id.verify(&message, &signature));
    let other_signed = sign::sign_detached(&message, &other_secret);
    let other_signature = Signature::from_bytes(&other_signed.to_bytes()).unwrap();
    assert!(!id.verify(&message, &other_signature));
    assert!(other_id.verify(&message, &other_signature));
}

#[test]
fn verify_refuses_a_signature_with_high_bits_set() {
    let (public, _) = key_pair(1);
    let id = UserID::from_bytes(&public.0).unwrap();
    let signature = Signature::from_vec(vec![0xffu8; 64]).unwrap();
    assert!(!id.verify(b"an item", &signature));
}

#[test]
fn same_compares_bytes() {
    let a = UserID::from_vec(vec![1u8; 32]).unwrap();
    let b = UserID::from_vec(vec![1u8; 32]).unwrap();
    let mut other = vec![1u8; 32];
    other[31] = 2;
    let c = UserID::from_vec(other).unwrap();
    assert!(a.same(&b));
    assert!(!a.same(&c));
    assert_eq!(a.clone(), a);
    let s = Signature::from_vec(vec![1u8; 64]).unwrap();
    let mut bytes = vec![1u8; 64];
    bytes[0] = 0;
    let t = Signature::from_vec(bytes).unwrap();
    assert!(s.same(&s.clone()));
    assert!(!s.same(&t));
}

#[test]
fn sha512_of_known_bytes() {
    let expected: [u8; 64] = [
        0x24, 0xf9, 0x50, 0xaa, 0xc7, 0xb9, 0xea, 0x9b, 0x3c, 0xb7, 0x28, 0x22, 0x8a, 0x0c, 0x82,
        0xb6, 0x7c, 0x39, 0xe9, 0x6b, 0x4b, 0x34, 0x47, 0x98, 0x87, 0x0d, 0x5d, 0xae, 0xe9, 0x3e,
        0x3a, 0xe5, 0x93, 0x1b, 0xaa, 0xe8, 0xc7, 0xca, 0xcf, 0xea, 0x4b, 0x62, 0x94, 0x52, 0xc3,
        0x80, 0x26, 0xa8, 0x1d, 0x13, 0x8b, 0xc7, 0xaa, 0xd1, 0xaf, 0x3e, 0xf7, 0xbf, 0xd5, 0xec,
        0x64, 0x6d, 0x6c, 0x28,
    ];
    let hash = SHA512::of(b"testing\n");
    assert_eq!(hash.bytes(), &expected[..]);
    assert_eq!(SHA512::from_hash_bytes(&expected).unwrap(), hash);
}

#[test]
fn sha512_tells_contents_apart() {
    let a = SHA512::of(b"one");
    let b = SHA512::of(b"two");
    assert!(!a.same(&b));
    assert!(a.same(&SHA512::of(b"one")));
    assert_eq!(a.bytes().len(), 64);
    assert_eq!(a.clone(), a);
}

#[test]
fn sha512_from_hash_bytes_wants_sixty_four() {
    assert_eq!(SHA512::from_hash_bytes(&[0u8; 63]), Err(ParseError::InvalidLength));
    assert_eq!(SHA512::from_hash_bytes(&[0u8; 65]), Err(ParseError::InvalidLength));
    assert_eq!(SHA512::from_hash_bytes(&[0u8; 31]), Err(ParseError::InvalidLength));
    assert_eq!(SHA512::from_hash_bytes(&[3u8; 64]).unwrap().bytes(), &[3u8; 64][..]);
}
