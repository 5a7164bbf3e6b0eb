//! Per-round data of the local node: round number, seed, and its BLS keys.

use vstd::prelude::*;

use crate::bls;

verus! {

/// Immutable data of one round: the round number, the round seed, and the
/// local member's key pair. Values of this type always hold a key pair whose
/// bytes deserialize, with the public key derived from the secret key.
#[derive(Debug)]
pub struct RoundUpdate {
    round: u64,
    seed: Vec<u8>,
    secret_key: Vec<u8>,
    pubkey_bls: Vec<u8>,
}

impl RoundUpdate {
    /// The key pair is sound: both keys deserialize and belong together.
    #[verifier::type_invariant]
    pub closed spec fn key_pair_sound(self) -> bool {
        &&& bls::sk_parses(self.secret_key@)
        &&& self.pubkey_bls@ == bls::bls_pk(self.secret_key@)
        &&& bls::pk_parses(self.pubkey_bls@)
    }

    /// The round number.
    pub closed spec fn spec_round(&self) -> u64 {
        self.round
    }

    /// The round seed bytes.
    pub closed spec fn spec_seed(&self) -> Seq<u8> {
        self.seed@
    }

    /// The local secret key bytes.
    pub closed spec fn spec_secret_key(&self) -> Seq<u8> {
        self.secret_key@
    }

    /// The local public key bytes.
    pub closed spec fn spec_pubkey(&self) -> Seq<u8> {
        self.pubkey_bls@
    }

    /// Builds the round data, deriving the public key from the secret key;
    /// `None` exactly when the secret key bytes do not deserialize.
    pub fn new(round: u64, seed: Vec<u8>, secret_key: Vec<u8>) -> (r: Option<RoundUpdate>)
        ensures
            (r is Some) == bls::sk_parses(secret_key@),
            r matches Some(ru) ==> ru.spec_round() == round && ru.spec_seed() == seed@
                && ru.spec_secret_key() == secret_key@ && ru.spec_pubkey() == bls::bls_pk(
                secret_key@,
            ),
    {
        match bls::public_key_of(&secret_key) {
            Some(pk) => Some(RoundUpdate { round, seed, secret_key, pubkey_bls: pk }),
            None => None,
        }
    }

    /// The round number.
    pub fn round(&self) -> (r: u64)
        ensures
            r == self.spec_round(),
    {
        self.round
    }

    /// The round seed.
    pub fn seed(&self) -> (r: &Vec<u8>)
        ensures
            r@ == self.spec_seed(),
    {
        &self.seed
    }

    /// The local secret key bytes.
    pub fn secret_key(&self) -> (r: &Vec<u8>)
        ensures
            r@ == self.spec_secret_key(),
    {
        &self.secret_key
    }

    /// The local public key bytes.
    pub fn pubkey_bls(&self) -> (r: &Vec<u8>)
        ensures
            r@ == self.spec_pubkey(),
    {
        &self.pubkey_bls
    }

    /// Surfaces the type invariant: the keys of a round always deserialize
    /// and belong together.
    pub fn keys_sound(&self)
        ensures
            bls::sk_parses(self.spec_secret_key()),
            self.spec_pubkey() == bls::bls_pk(self.spec_secret_key()),
            bls::pk_parses(self.spec_pubkey()),
    {
        proof {
            use_type_invariant(self);
        }
    }
}

} // verus!
