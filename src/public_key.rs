use crypto::signatures::ed25519::SecretKey;
use vstd::prelude::*;

use crate::ids::Id32;

verus! {

/// An Ed25519 public key.
#[derive(Debug, Clone, Copy, PartialEq, Eq, Hash, Structural)]
pub struct Ed25519PublicKey(pub Id32);

/// A public key of a supported scheme.
#[derive(Debug, Clone, Copy, PartialEq, Eq, Hash, Structural)]
pub enum PublicKey {
    Ed25519(Ed25519PublicKey),
}

/// Relies on iota-crypto's `ed25519::SecretKey::generate` (a key from the system's randomness,
/// or an error where none can be had) and `public_key().to_bytes()` (its 32-byte public key).
#[verifier::external_body]
fn generate_ed25519_public_key_bytes() -> (r: Option<Vec<u8>>)
    ensures
        match r {
            Some(b) => b@.len() == 32,
            None => true,
        },
{
    match SecretKey::generate() {
        Ok(k) => Some(k.public_key().to_bytes().to_vec()),
        Err(_) => None,
    }
}

/// A fresh random Ed25519 public key, or `None` where the system gives no randomness.
pub fn rand_ed25519_public_key() -> (r: Option<Ed25519PublicKey>) {
    match generate_ed25519_public_key_bytes() {
        Some(b) => Some(Ed25519PublicKey(Id32::from_bytes(b.as_slice()))),
        None => None,
    }
}

/// A fresh random public key, or `None` where the system gives no randomness.
pub fn rand_public_key() -> (r: Option<PublicKey>)
    ensures
        r is Some ==> r->0 is Ed25519,
{
    match rand_ed25519_public_key() {
        Some(k) => Some(PublicKey::Ed25519(k)),
        None => None,
    }
}

/// Adds `key` to `keys` unless it is there already.
pub fn insert_public_key(keys: &mut Vec<PublicKey>, key: PublicKey)
    ensures
        old(keys)@.contains(key) ==> final(keys)@ == old(keys)@,
        !old(keys)@.contains(key) ==> final(keys)@ == old(keys)@.push(key),
{
    let mut i: usize = 0;
    while i < keys.len()
        invariant
            i <= keys@.len(),
            keys@ == old(keys)@,
            forall|j: int| 0 <= j < i ==> keys@[j] != key,
        decreases keys@.len() - i,
    {
        if keys[i] == key {
            return;
        }
        i += 1;
    }
    keys.push(key);
}

} // verus!
