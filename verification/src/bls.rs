//! Trusted boundary to the BLS12-381 signature scheme.
//!
//! Keys and signatures cross this boundary as canonical byte strings; the
//! names below stand for what the scheme computes from them. Everything the
//! library proves about signatures goes through these contracts.

use vstd::prelude::*;

use dusk_bls12_381_sign::{PublicKey, SecretKey, Signature, APK};
use dusk_bytes::{DeserializableSlice, Serializable};

verus! {

/// Whether the aggregated verification of `sig` over `msg` under the
/// aggregation of the listed public keys succeeds.
pub uninterp spec fn bls_accepts(pks: Seq<Seq<u8>>, msg: Seq<u8>, sig: Seq<u8>) -> bool;

/// The aggregate of two serialized signatures.
pub uninterp spec fn bls_agg(a: Seq<u8>, b: Seq<u8>) -> Seq<u8>;

/// The signature of `msg` under the secret key, bound to its public key.
pub uninterp spec fn bls_sig(sk: Seq<u8>, pk: Seq<u8>, msg: Seq<u8>) -> Seq<u8>;

/// The public key derived from a secret key.
pub uninterp spec fn bls_pk(sk: Seq<u8>) -> Seq<u8>;

/// Whether the bytes deserialize as a signature.
pub uninterp spec fn sig_parses(b: Seq<u8>) -> bool;

/// Whether the bytes deserialize as a secret key.
pub uninterp spec fn sk_parses(b: Seq<u8>) -> bool;

/// Whether the bytes deserialize as a public key.
pub uninterp spec fn pk_parses(b: Seq<u8>) -> bool;

/// Relies on `APK::verify`: aggregated verification of one signature over one
/// message under the aggregation of the given public keys. The result is a
/// function of the byte arguments alone; bytes that do not deserialize, or an
/// empty key list, verify as false — so an accepted signature's bytes
/// deserialize (`Signature::from_bytes` ran before the pairing check).
#[verifier::external_body]
pub(crate) fn verify_aggregate(pks: &Vec<Vec<u8>>, msg: &Vec<u8>, sig: &Vec<u8>) -> (r: bool)
    ensures
        r == bls_accepts(pks@.map_values(|p: Vec<u8>| p@), msg@, sig@),
        r ==> sig_parses(sig@),
{
    let sig = match <[u8; 48]>::try_from(sig.as_slice()).map(|b| Signature::from_bytes(&b)) {
        Ok(Ok(s)) => s,
        _ => return false,
    };
    let keys = match pks.iter().map(|p| PublicKey::from_slice(p)).collect::<Result<Vec<_>, _>>() {
        Ok(k) => k,
        Err(_) => return false,
    };
    if keys.is_empty() {
        return false;
    }
    let mut apk = APK::from(&keys[0]);
    apk.aggregate(&keys[1..]);
    apk.verify(&sig, msg).is_ok()
}

/// Relies on `Signature::aggregate`: adds up two signatures; the sum is a
/// function of the two byte strings. `Signature::from_bytes` decides whether
/// each argument deserializes. The sum's canonical bytes deserialize again:
/// `Signature::from_bytes` accepts what `Signature::to_bytes` produced.
#[verifier::external_body]
pub(crate) fn aggregate_signature(a: &Vec<u8>, b: &Vec<u8>) -> (r: Option<Vec<u8>>)
    ensures
        (r is Some) <==> (sig_parses(a@) && sig_parses(b@)),
        r matches Some(s) ==> s@ == bls_agg(a@, b@) && s@.len() == 48 && sig_parses(s@),
{
    let x = match <[u8; 48]>::try_from(a.as_slice()).map(|v| Signature::from_bytes(&v)) {
        Ok(Ok(v)) => v,
        _ => return None,
    };
    let y = match <[u8; 48]>::try_from(b.as_slice()).map(|v| Signature::from_bytes(&v)) {
        Ok(Ok(v)) => v,
        _ => return None,
    };
    Some(x.aggregate(&[y]).to_bytes().to_vec())
}

/// Relies on `SecretKey::sign`: deterministic signing of a message, bound to
/// the signer's public key. `SecretKey::from_bytes` and
/// `PublicKey::from_bytes` decide whether the key bytes deserialize. The
/// produced signature's canonical bytes deserialize again:
/// `Signature::from_bytes` accepts what `Signature::to_bytes` produced.
#[verifier::external_body]
pub(crate) fn sign_message(sk: &Vec<u8>, pk: &Vec<u8>, msg: &Vec<u8>) -> (r: Option<Vec<u8>>)
    ensures
        (r is Some) <==> (sk_parses(sk@) && pk_parses(pk@)),
        r matches Some(s) ==> s@ == bls_sig(sk@, pk@, msg@) && s@.len() == 48 && sig_parses(s@),
{
    let sk = match SecretKey::from_slice(sk) {
        Ok(v) => v,
        Err(_) => return None,
    };
    let pk = match PublicKey::from_slice(pk) {
        Ok(v) => v,
        Err(_) => return None,
    };
    Some(sk.sign(&pk, msg).to_bytes().to_vec())
}

/// Relies on `PublicKey::from(&SecretKey)`: derives the public key of a
/// secret key; `SecretKey::from_bytes` decides whether the bytes deserialize.
/// The derived key's canonical bytes deserialize again:
/// `PublicKey::from_bytes` accepts what `PublicKey::to_bytes` produced.
#[verifier::external_body]
pub(crate) fn public_key_of(sk: &Vec<u8>) -> (r: Option<Vec<u8>>)
    ensures
        (r is Some) <==> sk_parses(sk@),
        r matches Some(p) ==> p@ == bls_pk(sk@) && p@.len() == 96 && pk_parses(p@),
{
    let sk = match SecretKey::from_slice(sk) {
        Ok(v) => v,
        Err(_) => return None,
    };
    Some(PublicKey::from(&sk).to_bytes().to_vec())
}

} // verus!
