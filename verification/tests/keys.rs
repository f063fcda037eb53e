use webworker::keys::accept_uncompressed;
use nimiq_bls::CompressedPublicKey;
use webworker::{setup_validators, CompressedKeys, InvalidKey, UncompressedKeys, UncompressedPublicKey};

#[test]
fn setup_validators_creates_requested_count() {
    assert_eq!(setup_validators(0).0.len(), 0);
    assert_eq!(setup_validators(3).0.len(), 3);
}

#[test]
fn generated_keys_uncompress() {
    let keys = setup_validators(2);
    let u = UncompressedKeys::from_compressed(&keys).ok().expect("valid keys");
    assert_eq!(u.0.len(), 2);
    assert!(u.0[0].0.compress() == keys.0[0]);
    assert!(u.0[1].0.compress() == keys.0[1]);
}

#[test]
fn invalid_key_is_reported_by_position() {
    let mut keys = setup_validators(2).0;
    keys.push(CompressedPublicKey { public_key: [0xff; 285] });
    let r = UncompressedKeys::from_compressed(&CompressedKeys(keys));
    assert!(matches!(r, Err(InvalidKey { index: 2 })));
}

#[test]
fn accept_uncompressed_maps_each_outcome() {
    let keys = setup_validators(1);
    let key = keys.0[0].uncompress().ok().expect("valid key");
    let ok = accept_uncompressed(Ok(key), 0).ok().expect("accepted");
    assert!(ok.0.compress() == keys.0[0]);
    let err = accept_uncompressed(Err(std::io::Error::other("bad point")), 4);
    assert!(matches!(err, Err(InvalidKey { index: 4 })));
}

#[test]
fn every_generated_key_uncompresses() {
    let keys = setup_validators(4);
    for k in keys.0.iter() {
        assert!(k.uncompress().is_ok());
    }
}

#[test]
fn uncompressed_bytes_read_back() {
    let keys = setup_validators(1);
    let key = UncompressedPublicKey(keys.0[0].uncompress().ok().expect("valid key"));
    let bytes = key.to_uncompressed_bytes();
    assert_eq!(bytes.len(), 570);
    let back = UncompressedPublicKey::from_uncompressed_bytes(&bytes).expect("decodes");
    assert!(back.0 == key.0);
    assert!(back.0.compress() == keys.0[0]);
    assert!(UncompressedPublicKey::from_uncompressed_bytes(&bytes[..10]).is_none());
}
