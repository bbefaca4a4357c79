//! Keys and signatures, taken on trust from the `secp256k1` crate.
//!
//! Secret keys travel through the crate as 32-byte vectors, compressed public
//! keys as 33 bytes, x-only keys as 32 bytes. Signing with `secp256k1` is
//! deterministic (RFC 6979 for ECDSA, BIP340 with zero auxiliary randomness
//! for Schnorr), so each result can be named as a function of its arguments.

use vstd::prelude::*;

verus! {

/// Whether 32 bytes form a valid secret key (non-zero, below the curve
/// order), as `SecretKey::from_slice` decides it.
pub uninterp spec fn spec_sk_valid(sk: Seq<u8>) -> bool;

/// The 33-byte compressed public key derived from a secret key.
pub uninterp spec fn spec_pubkey_of(sk: Seq<u8>) -> Seq<u8>;

/// The 32-byte x-only public key derived from a secret key.
pub uninterp spec fn spec_xonly_of(sk: Seq<u8>) -> Seq<u8>;

/// The x-only public key after adding a tweak scalar to the key pair.
pub uninterp spec fn spec_tweaked_xonly_of(sk: Seq<u8>, tweak: Seq<u8>) -> Seq<u8>;

/// The DER-encoded RFC 6979 ECDSA signature over a 32-byte digest.
pub uninterp spec fn spec_ecdsa_sig_of(msg: Seq<u8>, sk: Seq<u8>) -> Seq<u8>;

/// The 64-byte BIP340 Schnorr signature over a 32-byte digest, with zero
/// auxiliary randomness.
pub uninterp spec fn spec_schnorr_sig_of(msg: Seq<u8>, sk: Seq<u8>) -> Seq<u8>;

/// The 64-byte Schnorr signature made with the tweaked key pair.
pub uninterp spec fn spec_schnorr_tweaked_sig_of(msg: Seq<u8>, sk: Seq<u8>, tweak: Seq<u8>) -> Seq<
    u8,
>;

/// Relies on `SecretKey::new` over `thread_rng` and
/// `PublicKey::from_secret_key_global`: a fresh valid secret key and its
/// compressed public key.
#[verifier::external_body]
pub fn generate_keypair() -> (r: (Vec<u8>, Vec<u8>))
    ensures
        r.0@.len() == 32,
        spec_sk_valid(r.0@),
        r.1@ == spec_pubkey_of(r.0@),
        r.1@.len() == 33,
{
    let sk = secp256k1::SecretKey::new(&mut secp256k1::rand::thread_rng());
    let pk = secp256k1::PublicKey::from_secret_key_global(&sk);
    (sk.secret_bytes().to_vec(), pk.serialize().to_vec())
}

/// Relies on `SecretKey::from_slice`: it accepts exactly the byte strings
/// that form a valid secret key.
#[verifier::external_body]
pub fn sk_is_valid(sk: &Vec<u8>) -> (r: bool)
    ensures
        r == spec_sk_valid(sk@),
{
    secp256k1::SecretKey::from_slice(sk.as_slice()).is_ok()
}

/// Relies on `PublicKey::from_secret_key_global` and `PublicKey::serialize`:
/// the compressed public key of a valid secret key.
#[verifier::external_body]
pub(crate) fn pubkey_from_sk(sk: &Vec<u8>) -> (r: Vec<u8>)
    requires
        spec_sk_valid(sk@),
    ensures
        r@ == spec_pubkey_of(sk@),
        r@.len() == 33,
{
    let s = secp256k1::SecretKey::from_slice(sk.as_slice()).unwrap();
    secp256k1::PublicKey::from_secret_key_global(&s).serialize().to_vec()
}

/// Relies on `Keypair::from_secret_key` and `XOnlyPublicKey` serialization:
/// the 32-byte x-only public key of a valid secret key.
#[verifier::external_body]
pub(crate) fn xonly_from_sk(sk: &Vec<u8>) -> (r: Vec<u8>)
    requires
        spec_sk_valid(sk@),
    ensures
        r@ == spec_xonly_of(sk@),
        r@.len() == 32,
{
    let s = secp256k1::SecretKey::from_slice(sk.as_slice()).unwrap();
    let kp = secp256k1::Keypair::from_secret_key(secp256k1::SECP256K1, &s);
    kp.x_only_public_key().0.serialize().to_vec()
}

/// Relies on `Keypair::add_xonly_tweak`: the x-only public key of the tweaked
/// key pair, or `None` when the tweak scalar is out of range or the tweaked
/// key is invalid.
#[verifier::external_body]
pub(crate) fn tweaked_xonly_from_sk(sk: &Vec<u8>, tweak: &Vec<u8>) -> (r: Option<Vec<u8>>)
    requires
        spec_sk_valid(sk@),
        tweak@.len() == 32,
    ensures
        match r {
            Some(v) => v@ == spec_tweaked_xonly_of(sk@, tweak@) && v@.len() == 32,
            None => true,
        },
{
    let s = secp256k1::SecretKey::from_slice(sk.as_slice()).unwrap();
    let kp = secp256k1::Keypair::from_secret_key(secp256k1::SECP256K1, &s);
    let arr: [u8; 32] = tweak.as_slice().try_into().unwrap();
    let scalar = match secp256k1::Scalar::from_be_bytes(arr) { Ok(sc) => sc, Err(_) => return None };
    match kp.add_xonly_tweak(secp256k1::SECP256K1, &scalar) {
        Ok(t) => Some(t.x_only_public_key().0.serialize().to_vec()),
        Err(_) => None,
    }
}

/// Relies on `Secp256k1::sign_ecdsa` (RFC 6979, deterministic) and
/// `Signature::serialize_der`: at most 72 bytes of DER.
#[verifier::external_body]
pub(crate) fn sign_ecdsa(msg: &Vec<u8>, sk: &Vec<u8>) -> (r: Vec<u8>)
    requires
        msg@.len() == 32,
        spec_sk_valid(sk@),
    ensures
        r@ == spec_ecdsa_sig_of(msg@, sk@),
        r@.len() <= 72,
{
    let s = secp256k1::SecretKey::from_slice(sk.as_slice()).unwrap();
    let m = secp256k1::Message::from_digest_slice(msg.as_slice()).unwrap();
    secp256k1::SECP256K1.sign_ecdsa(&m, &s).serialize_der().to_vec()
}

/// Relies on `Secp256k1::sign_schnorr_no_aux_rand` (deterministic BIP340):
/// the 64-byte Schnorr signature.
#[verifier::external_body]
pub(crate) fn sign_schnorr(msg: &Vec<u8>, sk: &Vec<u8>) -> (r: Vec<u8>)
    requires
        msg@.len() == 32,
        spec_sk_valid(sk@),
    ensures
        r@ == spec_schnorr_sig_of(msg@, sk@),
        r@.len() == 64,
{
    let s = secp256k1::SecretKey::from_slice(sk.as_slice()).unwrap();
    let kp = secp256k1::Keypair::from_secret_key(secp256k1::SECP256K1, &s);
    let m = secp256k1::Message::from_digest_slice(msg.as_slice()).unwrap();
    secp256k1::SECP256K1.sign_schnorr_no_aux_rand(&m, &kp).serialize().to_vec()
}

/// Relies on `Keypair::add_xonly_tweak` and `sign_schnorr_no_aux_rand`: the
/// 64-byte Schnorr signature under the tweaked key pair, or `None` when the
/// tweak is rejected.
#[verifier::external_body]
pub(crate) fn sign_schnorr_tweaked(msg: &Vec<u8>, sk: &Vec<u8>, tweak: &Vec<u8>) -> (r: Option<
    Vec<u8>,
>)
    requires
        msg@.len() == 32,
        spec_sk_valid(sk@),
        tweak@.len() == 32,
    ensures
        match r {
            Some(v) => v@ == spec_schnorr_tweaked_sig_of(msg@, sk@, tweak@) && v@.len() == 64,
            None => true,
        },
{
    let s = secp256k1::SecretKey::from_slice(sk.as_slice()).unwrap();
    let kp = secp256k1::Keypair::from_secret_key(secp256k1::SECP256K1, &s);
    let arr: [u8; 32] = tweak.as_slice().try_into().unwrap();
    let scalar = match secp256k1::Scalar::from_be_bytes(arr) { Ok(sc) => sc, Err(_) => return None };
    let tkp = match kp.add_xonly_tweak(secp256k1::SECP256K1, &scalar) { Ok(t) => t, Err(_) => return None };
    let m = secp256k1::Message::from_digest_slice(msg.as_slice()).unwrap();
    Some(secp256k1::SECP256K1.sign_schnorr_no_aux_rand(&m, &tkp).serialize().to_vec())
}

} // verus!
