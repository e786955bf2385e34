use bsync::digest::{content_hash, derive_topic};
use bsync::identity::{
    create_key, load_key, load_or_create_key, parse_endpoint_addr, AddrError, IdentityError,
};

/// The secret key of the first test vector of RFC 8032.
const SECRET: [u8; 32] = [
    0x9d, 0x61, 0xb1, 0x9d, 0xef, 0xfd, 0x5a, 0x60, 0xba, 0x84, 0x4a, 0xf4, 0x92, 0xec, 0x2c, 0xc4,
    0x44, 0x49, 0xc5, 0x69, 0x7b, 0x32, 0x69, 0x19, 0x70, 0x3b, 0xac, 0x03, 0x1c, 0xae, 0x7f, 0x60,
];

/// Its public key.
const PUBLIC: &str = "d75a980182b10ab7d54bfed3c964073a0ee172f3daa62325af021a68f707511a";

#[test]
fn peer_id_is_the_public_key() {
    let identity = create_key(SECRET);
    assert_eq!(identity.key, SECRET);
    assert_eq!(identity.peer_id, PUBLIC);
}

#[test]
fn identity_is_loaded_as_it_was_written() {
    let created = create_key([7; 32]);
    match load_key(&created.key) {
        Ok(loaded) => {
            assert_eq!(loaded.key, created.key);
            assert_eq!(loaded.peer_id, created.peer_id);
        }
        Err(_) => panic!("expected an identity"),
    }
}

#[test]
fn corrupt_key_files_are_refused() {
    for len in [0, 31, 33] {
        match load_key(&vec![1; len]) {
            Err(error) => {
                assert_eq!(error, IdentityError::Corrupt);
                assert_eq!(error.message(), "identity key file is corrupt: expected 32 bytes");
            }
            Ok(_) => panic!("expected an error"),
        }
    }
}

#[test]
fn endpoint_addresses_are_parsed() {
    let key = parse_endpoint_addr(PUBLIC).unwrap();
    assert_eq!(key[0], 0xd7);
    assert_eq!(key[31], 0x1a);
    for text in ["", "test-peer-1", &PUBLIC[1..]] {
        let error = parse_endpoint_addr(text).unwrap_err();
        assert_eq!(error, AddrError::Invalid);
        assert_eq!(error.message(), "invalid endpoint address in ticket");
    }
}

#[test]
fn topic_is_the_hash_of_the_prefixed_room() {
    let topic = derive_topic("work");
    assert_eq!(&topic, blake3::hash(b"bsync-clipboard-v1:work").as_bytes());
    assert_ne!(topic, derive_topic("home"));
}

#[test]
fn content_hash_of_nothing() {
    let hash = content_hash("");
    assert_eq!(hash[0], 0xaf);
    assert_eq!(hash[1], 0x13);
    assert_eq!(hash[31], 0x62);
    assert_eq!(&content_hash("hello"), blake3::hash(b"hello").as_bytes());
}

#[test]
fn key_is_persisted_and_stable() {
    let first = match load_or_create_key(None, [7; 32]) {
        Ok(found) => found,
        Err(_) => panic!("expected an identity"),
    };
    assert!(first.is_new);
    assert_eq!(first.identity.key, [7; 32]);
    for fresh in [[8; 32], [9; 32]] {
        match load_or_create_key(Some(first.identity.key.to_vec()), fresh) {
            Ok(again) => {
                assert!(!again.is_new);
                assert_eq!(again.identity.key, first.identity.key);
                assert_eq!(again.identity.peer_id, first.identity.peer_id);
            }
            Err(_) => panic!("expected an identity"),
        }
    }
    match load_or_create_key(Some(vec![1, 2, 3]), [8; 32]) {
        Err(error) => assert_eq!(error, IdentityError::Corrupt),
        Ok(_) => panic!("expected an error"),
    }
}
