//! RSA key pairs made by the key generator, held as the PKCS#8 encoding of
//! the private key so that what decryption gives can be named.
use vstd::prelude::*;

use rand::rngs::ThreadRng;
use rsa::pkcs8::{DecodePrivateKey, EncodePrivateKey};
use rsa::{Pkcs1v15Encrypt, RsaPrivateKey, RsaPublicKey};

use crate::crypto::opt_bytes;

verus! {

/// A freshly generated RSA key pair: the PKCS#8 DER encoding of its private
/// key and the size of its modulus in bits. Only `rsa_generate` makes one, so
/// every value holds a key that `RsaPrivateKey::new` produced with a modulus
/// of exactly that many bits.
pub struct RsaKeyPair {
    private_der: Vec<u8>,
    bits: usize,
}

impl RsaKeyPair {
    /// The PKCS#8 DER encoding of the private key.
    pub closed spec fn private_key(&self) -> Seq<u8> {
        self.private_der@
    }

    /// The size of the modulus in bits.
    pub closed spec fn bits(&self) -> nat {
        self.bits as nat
    }
}

/// The longest message that PKCS#1 v1.5 encryption takes under a modulus of
/// `bits` bits: the modulus size in bytes, less eleven bytes of padding.
pub open spec fn rsa_max_message_len(bits: nat) -> int {
    (bits + 7) / 8 - 11
}

/// What PKCS#1 v1.5 decryption (`RsaPrivateKey::decrypt`) gives for
/// `ciphertext` under the private key whose PKCS#8 DER is `private_der`:
/// `None` when the key does not decode or the ciphertext does not decrypt.
pub uninterp spec fn rsa_pkcs1v15_decrypt(private_der: Seq<u8>, ciphertext: Seq<u8>) -> Option<Seq<u8>>;

/// A fresh RSA key pair of `bits` bits (`RsaPrivateKey::new` with exponent
/// 65537), kept as its PKCS#8 DER (`to_pkcs8_der`). Generation succeeds for
/// every size from 64 bits on: it draws primes until their product has
/// exactly `bits` bits, and the key so built passes `validate`. Below 64 bits
/// it may refuse. Sizes above 4096 bits, where drawing primes may not end in
/// practice, are left out. Which key comes back is left unsaid.
#[verifier::external_body]
pub(crate) fn rsa_generate(rng: &mut ThreadRng, bits: usize) -> (pair: Option<RsaKeyPair>)
    requires
        bits <= 4096,
    ensures
        bits >= 64 ==> pair is Some,
        pair matches Some(p) ==> p.bits() == bits,
{
    let key = match RsaPrivateKey::new(rng, bits) {
        Ok(k) => k,
        Err(_) => return None,
    };
    match key.to_pkcs8_der() {
        Ok(der) => Some(RsaKeyPair { private_der: der.as_bytes().to_vec(), bits }),
        Err(_) => None,
    }
}

/// PKCS#1 v1.5 encryption (`RsaPublicKey::encrypt`) of `data` under the
/// public half (`RsaPublicKey::from`) of a generated pair. It succeeds exactly
/// when the data leaves room for the eleven bytes of padding in the modulus,
/// and the ciphertext then decrypts to the data under the pair's private key.
/// The padding is random, so which ciphertext comes back is left unsaid.
#[verifier::external_body]
pub(crate) fn rsa_encrypt(pair: &RsaKeyPair, rng: &mut ThreadRng, data: &[u8]) -> (ct: Option<Vec<u8>>)
    ensures
        ct is Some <==> data@.len() <= rsa_max_message_len(pair.bits()),
        ct matches Some(c) ==> rsa_pkcs1v15_decrypt(pair.private_key(), c@) == Some(data@),
{
    let key = RsaPrivateKey::from_pkcs8_der(&pair.private_der).ok()?;
    RsaPublicKey::from(&key).encrypt(rng, Pkcs1v15Encrypt, data).ok()
}

/// PKCS#1 v1.5 decryption (`RsaPrivateKey::decrypt`) of `ciphertext` under
/// the private key of a generated pair. The result is named
/// `rsa_pkcs1v15_decrypt`.
#[verifier::external_body]
pub(crate) fn rsa_decrypt(pair: &RsaKeyPair, ciphertext: &[u8]) -> (pt: Option<Vec<u8>>)
    ensures
        opt_bytes(pt) == rsa_pkcs1v15_decrypt(pair.private_key(), ciphertext@),
{
    let key = RsaPrivateKey::from_pkcs8_der(&pair.private_der).ok()?;
    key.decrypt(Pkcs1v15Encrypt, ciphertext).ok()
}

} // verus!
