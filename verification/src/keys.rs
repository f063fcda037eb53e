//! BLS validator keys: generating compressed public keys, and turning them
//! back into full public keys, the work that the demo hands to a worker.
use ark_serialize::{CanonicalDeserialize, CanonicalSerialize};
use nimiq_bls::{CompressedPublicKey, G2Projective, PublicKey, SecretKey};
use nimiq_utils::key_rng::SecureGenerate;
use vstd::prelude::*;

verus! {

#[verifier::external_type_specification]
#[verifier::external_body]
pub struct ExSecretKey(SecretKey);

#[verifier::external_type_specification]
#[verifier::external_body]
pub struct ExPublicKey(PublicKey);

#[verifier::external_type_specification]
#[verifier::external_body]
pub struct ExCompressedPublicKey(CompressedPublicKey);

#[verifier::external_type_specification]
#[verifier::external_body]
pub struct ExIoError(std::io::Error);

/// Calls `SecretKey::generate_default_csprng`, which draws a fresh secret key
/// from the operating system's random source; nothing is stated of the key.
#[verifier::external_body]
fn generate_secret_key() -> (k: SecretKey) {
    SecretKey::generate_default_csprng()
}

/// The public key that `PublicKey::from_secret` derives from a secret key.
pub uninterp spec fn public_key_of(secret: SecretKey) -> PublicKey;

/// The compressed form that `PublicKey::compress` writes for a public key.
pub uninterp spec fn compressed_form(key: PublicKey) -> CompressedPublicKey;

/// What `CompressedPublicKey::uncompress` gives for a compressed key: the
/// public key, or `None` when the bytes are no valid point of the group.
pub uninterp spec fn uncompression(key: CompressedPublicKey) -> Option<PublicKey>;

/// Calls `PublicKey::from_secret`, which multiplies the group generator by the
/// secret scalar. The result is a function of the secret alone. It is a point
/// of the generator's subgroup, so its compressed form passes the validation
/// that `uncompress` performs (a point on the curve, in the right subgroup).
#[verifier::external_body]
fn public_key_from_secret(secret: &SecretKey) -> (k: PublicKey)
    ensures
        k == public_key_of(*secret),
        uncompression(compressed_form(k)) is Some,
{
    PublicKey::from_secret(secret)
}

/// Calls `PublicKey::compress`, which writes the key in its compressed
/// 285-byte form; the bytes are a function of the key alone.
#[verifier::external_body]
fn compress_public_key(key: &PublicKey) -> (c: CompressedPublicKey)
    ensures
        c == compressed_form(*key),
{
    key.compress()
}

/// Calls `CompressedPublicKey::uncompress`, which reads the 285 bytes back into
/// a curve point, or returns an error when they are no valid point. The
/// outcome is a function of the bytes alone; the error value itself is not
/// described.
#[verifier::external_body]
fn uncompress_public_key(key: &CompressedPublicKey) -> (r: Result<PublicKey, std::io::Error>)
    ensures
        r is Ok <==> uncompression(*key) is Some,
        r matches Ok(k) ==> uncompression(*key) == Some(k),
{
    key.uncompress()
}

/// The bytes that `CanonicalSerialize::serialize_uncompressed` writes for the
/// point of a public key: both coordinates, uncompressed.
pub uninterp spec fn uncompressed_encoding(key: PublicKey) -> Seq<u8>;

/// The public key whose point `CanonicalDeserialize::deserialize_uncompressed_unchecked`
/// reads from `bytes`, or `None` when the bytes do not hold a point's coordinates.
pub uninterp spec fn point_from_uncompressed(bytes: Seq<u8>) -> Option<PublicKey>;

/// Calls `CanonicalSerialize::serialize_uncompressed` on the key's point,
/// writing into a growing vector (which never fails); the bytes are a
/// function of the key alone.
#[verifier::external_body]
fn serialize_uncompressed_point(key: &PublicKey) -> (b: Vec<u8>)
    ensures
        b@ == uncompressed_encoding(*key),
{
    let mut bytes = Vec::new();
    key.public_key.serialize_uncompressed(&mut bytes).unwrap();
    bytes
}

/// Calls `CanonicalDeserialize::deserialize_uncompressed_unchecked` for a
/// `G2Projective` point, which reads both coordinates without checking that
/// the point lies in the subgroup, and wraps the point as a public key. The
/// outcome is a function of the bytes alone.
#[verifier::external_body]
fn deserialize_uncompressed_point(bytes: &[u8]) -> (r: Option<PublicKey>)
    ensures
        r == point_from_uncompressed(bytes@),
{
    match G2Projective::deserialize_uncompressed_unchecked(bytes) {
        Ok(p) => Some(PublicKey { public_key: p }),
        Err(_) => None,
    }
}

/// A list of validator public keys in compressed form.
pub struct CompressedKeys(pub Vec<CompressedPublicKey>);

/// A public key in uncompressed form, as it is sent back from a worker.
pub struct UncompressedPublicKey(pub PublicKey);

impl UncompressedPublicKey {
    /// The key as it is sent from the worker: its point, uncompressed.
    pub fn to_uncompressed_bytes(&self) -> (b: Vec<u8>)
        ensures
            b@ == uncompressed_encoding(self.0),
    {
        serialize_uncompressed_point(&self.0)
    }

    /// The key sent as `bytes`, or `None` when they hold no point.
    pub fn from_uncompressed_bytes(bytes: &[u8]) -> (r: Option<Self>)
        ensures
            match point_from_uncompressed(bytes@) {
                Some(k) => r == Some(UncompressedPublicKey(k)),
                None => r is None,
            },
    {
        match deserialize_uncompressed_point(bytes) {
            Some(k) => Some(UncompressedPublicKey(k)),
            None => None,
        }
    }
}

/// A list of validator public keys in uncompressed form.
pub struct UncompressedKeys(pub Vec<UncompressedPublicKey>);

/// A compressed key that is no valid public key, by its position in the list.
#[derive(Debug, Clone, Copy, PartialEq, Eq, Structural)]
pub struct InvalidKey {
    pub index: usize,
}

/// Whether `key` is the compressed public key of some secret key.
pub open spec fn is_generated_key(key: CompressedPublicKey) -> bool {
    exists|s: SecretKey| key == compressed_form(public_key_of(s))
}

/// Creates `num` validators, each with a fresh random key pair, and keeps
/// only the compressed public keys; each of them uncompresses.
pub fn setup_validators(num: usize) -> (keys: CompressedKeys)
    ensures
        keys.0@.len() == num,
        forall|i: int| 0 <= i < num ==> (#[trigger] uncompression(keys.0@[i])) is Some,
        forall|i: int| 0 <= i < num ==> is_generated_key(#[trigger] keys.0@[i]),
{
    let mut validators: Vec<CompressedPublicKey> = Vec::new();
    let mut i: usize = 0;
    while i < num
        invariant
            i <= num,
            validators@.len() == i,
            forall|j: int| 0 <= j < i ==> (#[trigger] uncompression(validators@[j])) is Some,
            forall|j: int| 0 <= j < i ==> is_generated_key(#[trigger] validators@[j]),
        decreases num - i,
    {
        let secret = generate_secret_key();
        let public = public_key_from_secret(&secret);
        validators.push(compress_public_key(&public));
        assert(validators@[i as int] == compressed_form(public_key_of(secret)));
        assert(is_generated_key(validators@[i as int]));
        i = i + 1;
    }
    CompressedKeys(validators)
}

/// What one uncompression attempt contributes: the key, or the position of
/// the key that is no valid point.
pub fn accept_uncompressed(attempt: Result<PublicKey, std::io::Error>, index: usize) -> (r: Result<
    UncompressedPublicKey,
    InvalidKey,
>)
    ensures
        match attempt {
            Ok(k) => r == Ok::<UncompressedPublicKey, InvalidKey>(UncompressedPublicKey(k)),
            Err(_) => r == Err::<UncompressedPublicKey, InvalidKey>(InvalidKey { index }),
        },
{
    match attempt {
        Ok(k) => Ok(UncompressedPublicKey(k)),
        Err(_) => Err(InvalidKey { index }),
    }
}

impl UncompressedKeys {
    /// Uncompresses every key of `compressed`, in order. The first key that is
    /// no valid point stops the work, and its position is returned.
    pub fn from_compressed(compressed: &CompressedKeys) -> (r: Result<Self, InvalidKey>)
        ensures
            r is Ok <==> forall|i: int|
                0 <= i < compressed.0@.len() ==> (#[trigger] uncompression(compressed.0@[i])) is Some,
            r matches Ok(u) ==> {
                &&& u.0@.len() == compressed.0@.len()
                &&& forall|i: int|
                    0 <= i < compressed.0@.len() ==> uncompression(#[trigger] compressed.0@[i])
                        == Some(u.0@[i].0)
            },
            r matches Err(e) ==> {
                &&& e.index < compressed.0@.len()
                &&& uncompression(compressed.0@[e.index as int]) is None
                &&& forall|j: int|
                    0 <= j < e.index ==> (#[trigger] uncompression(compressed.0@[j])) is Some
            },
    {
        let n = compressed.0.len();
        let mut keys: Vec<UncompressedPublicKey> = Vec::new();
        let mut i: usize = 0;
        while i < n
            invariant
                n == compressed.0@.len(),
                i <= n,
                keys@.len() == i,
                forall|j: int|
                    0 <= j < i ==> uncompression(#[trigger] compressed.0@[j]) == Some(keys@[j].0),
            decreases n - i,
        {
            match accept_uncompressed(uncompress_public_key(&compressed.0[i]), i) {
                Ok(key) => keys.push(key),
                Err(e) => {
                    return Err(e);
                },
            }
            i = i + 1;
        }
        Ok(UncompressedKeys(keys))
    }
}

} // verus!
