//! Calls into the password-hashing, digest, cipher and random-number crates,
//! each behind a small trusted wrapper, and the start-up self-checks built on
//! them.
use vstd::prelude::*;

use aes_gcm::aead::{Aead, AeadCore, KeyInit, OsRng};
use aes_gcm::{Aes256Gcm, Key, Nonce};
use argon2::password_hash::{PasswordHash, PasswordHasher, PasswordVerifier, SaltString};
use argon2::Argon2;
use rand::rngs::ThreadRng;
use rand::Rng;
use crate::rsa_keys::{rsa_decrypt, rsa_encrypt, rsa_generate, rsa_max_message_len};
use sha2::{Digest, Sha256};

verus! {

/// The byte contents of an optional byte vector.
pub open spec fn opt_bytes(o: Option<Vec<u8>>) -> Option<Seq<u8>> {
    match o {
        Some(v) => Some(v@),
        None => None,
    }
}

/// The character contents of an optional string.
pub open spec fn opt_chars(o: Option<String>) -> Option<Seq<char>> {
    match o {
        Some(s) => Some(s@),
        None => None,
    }
}

/// The largest password, in bytes, that Argon2 accepts.
pub const ARGON2_MAX_PASSWORD_LEN: usize = 0xFFFF_FFFF;

/// What checking `password` against the PHC string `phc` with the default
/// Argon2 instance gives: `None` when `phc` does not parse as a password hash,
/// otherwise whether the recomputed hash matches.
pub uninterp spec fn argon2_check(password: Seq<u8>, phc: Seq<char>) -> Option<bool>;

/// The PHC string that the default Argon2 instance produces for `password`
/// under the B64-encoded salt `salt`, or `None` when hashing fails.
pub uninterp spec fn argon2_phc(password: Seq<u8>, salt: Seq<char>) -> Option<Seq<char>>;

/// The SHA-256 digest of `data`.
pub uninterp spec fn sha256(data: Seq<u8>) -> Seq<u8>;

/// The AES-256-GCM ciphertext, tag appended, of `plaintext` under `key` and
/// `nonce`, with no associated data.
pub uninterp spec fn aes256gcm_seal(key: Seq<u8>, nonce: Seq<u8>, plaintext: Seq<u8>) -> Seq<u8>;

/// The AES-256-GCM decryption of `ciphertext` under `key` and `nonce`, with no
/// associated data: `None` when the tag does not authenticate it.
pub uninterp spec fn aes256gcm_open(key: Seq<u8>, nonce: Seq<u8>, ciphertext: Seq<u8>) -> Option<Seq<u8>>;

#[verifier::external_type_specification]
#[verifier::external_body]
pub struct ExThreadRng(ThreadRng);

/// Checks a password against a stored PHC string: parses it with
/// `PasswordHash::new` and checks it with `Argon2::default().verify_password`.
/// The result is named `argon2_check`; a parse failure gives `None`.
#[verifier::external_body]
pub(crate) fn argon2_verify(password: &[u8], phc: &str) -> (res: Option<bool>)
    ensures
        res == argon2_check(password@, phc@),
{
    match PasswordHash::new(phc) {
        Ok(hash) => Some(Argon2::default().verify_password(password, &hash).is_ok()),
        Err(_) => None,
    }
}

/// A fresh random salt from `SaltString::generate` over the operating-system
/// generator, as its B64 string. It is sixteen random bytes, so hashing any
/// password that Argon2 accepts under it succeeds. Which salt comes back is
/// left unsaid.
#[verifier::external_body]
pub(crate) fn generate_salt() -> (salt: String)
    ensures
        forall|pw: Seq<u8>| pw.len() <= ARGON2_MAX_PASSWORD_LEN ==> #[trigger] argon2_phc(pw, salt@) is Some,
{
    SaltString::generate(&mut rsa::rand_core::OsRng).as_str().to_owned()
}

/// Hashes a password with `Argon2::default().hash_password` under the given
/// B64 salt and renders the result as its PHC string. The result is named
/// `argon2_phc`; a string it yields checks true against the same password
/// (`verify_password` recomputes the hash from the parameters and salt that
/// the string carries). The string is the `$`-separated PHC form, which
/// starts with "$argon2id$" (the default algorithm) and ends with the 32-byte
/// hash in B64, 43 characters, so it is longer than 43 characters.
#[verifier::external_body]
pub(crate) fn argon2_hash(password: &[u8], salt: &str) -> (res: Option<String>)
    ensures
        opt_chars(res) == argon2_phc(password@, salt@),
        res matches Some(h) ==> argon2_check(password@, h@) == Some(true),
        res matches Some(h) ==> h@.len() > 43 && h@.take(10) == "$argon2id$"@,
{
    let salt = match SaltString::from_b64(salt) {
        Ok(s) => s,
        Err(_) => return None,
    };
    match Argon2::default().hash_password(password, &salt) {
        Ok(hash) => Some(hash.to_string()),
        Err(_) => None,
    }
}

/// The SHA-256 digest of `data` (`Sha256::digest`), thirty-two bytes long.
#[verifier::external_body]
pub(crate) fn sha256_digest(data: &[u8]) -> (res: Vec<u8>)
    ensures
        res@ == sha256(data@),
        res@.len() == 32,
{
    Sha256::digest(data).to_vec()
}

/// A random twelve-byte nonce from `Aes256Gcm::generate_nonce` over the
/// operating-system generator. Which bytes come back is left unsaid.
#[verifier::external_body]
pub(crate) fn aes256gcm_nonce() -> (nonce: Vec<u8>)
    ensures
        nonce@.len() == 12,
{
    Aes256Gcm::generate_nonce(&mut OsRng).to_vec()
}

/// AES-256-GCM encryption (`Aes256Gcm::encrypt`) of `plaintext` under a
/// thirty-two-byte key and a twelve-byte nonce. It fails only for plaintexts
/// over 2^36 bytes, which `requires` leaves out. The ciphertext carries the
/// sixteen-byte tag and decrypts to the plaintext under the same key and nonce.
#[verifier::external_body]
pub(crate) fn aes256gcm_encrypt(key: &[u8], nonce: &[u8], plaintext: &[u8]) -> (ct: Vec<u8>)
    requires
        key@.len() == 32,
        nonce@.len() == 12,
        plaintext@.len() <= 0x10_0000_0000,
    ensures
        ct@ == aes256gcm_seal(key@, nonce@, plaintext@),
        ct@.len() == plaintext@.len() + 16,
        aes256gcm_open(key@, nonce@, ct@) == Some(plaintext@),
{
    let cipher = Aes256Gcm::new(Key::<Aes256Gcm>::from_slice(key));
    cipher.encrypt(Nonce::from_slice(nonce), plaintext).unwrap()
}

/// AES-256-GCM decryption (`Aes256Gcm::decrypt`) under a thirty-two-byte key
/// and a twelve-byte nonce; `None` when the tag does not check.
#[verifier::external_body]
pub(crate) fn aes256gcm_decrypt(key: &[u8], nonce: &[u8], ciphertext: &[u8]) -> (pt: Option<Vec<u8>>)
    requires
        key@.len() == 32,
        nonce@.len() == 12,
    ensures
        opt_bytes(pt) == aes256gcm_open(key@, nonce@, ciphertext@),
{
    let cipher = Aes256Gcm::new(Key::<Aes256Gcm>::from_slice(key));
    cipher.decrypt(Nonce::from_slice(nonce), ciphertext).ok()
}

/// The thread-local random generator (`rand::thread_rng`).
#[verifier::external_body]
pub(crate) fn thread_rng() -> ThreadRng {
    rand::thread_rng()
}

/// A uniformly random `u32` drawn from the generator (`Rng::gen`). Which
/// value comes back is left unsaid.
#[verifier::external_body]
pub(crate) fn random_u32(rng: &mut ThreadRng) -> u32 {
    rng.gen::<u32>()
}

/// Whether two byte slices hold the same bytes.
pub fn bytes_eq(a: &[u8], b: &[u8]) -> (res: bool)
    ensures
        res == (a@ == b@),
{
    if a.len() != b.len() {
        return false;
    }
    let mut i: usize = 0;
    while i < a.len()
        invariant
            a@.len() == b@.len(),
            i <= a@.len(),
            forall|k: int| 0 <= k < i ==> a@[k] == b@[k],
        decreases a.len() - i,
    {
        if a[i] != b[i] {
            return false;
        }
        i = i + 1;
    }
    assert(a@ =~= b@);
    true
}

/// The ASCII bytes of "hello world", the self-checks' sample message.
fn sample_message() -> (m: Vec<u8>)
    ensures
        m@ == seq![104u8, 101, 108, 108, 111, 32, 119, 111, 114, 108, 100],
{
    vec![104u8, 101, 108, 108, 111, 32, 119, 111, 114, 108, 100]
}

/// Start-up check of the symmetric cipher: encrypts the sample message under
/// the fixed key of thirty-two bytes of 42 and a fresh nonce, decrypts it, and
/// reports whether the message came back. It always does.
pub fn symmetric_encryption_test() -> (passed: bool)
    ensures
        passed,
{
    let key: Vec<u8> = vec![42u8; 32];
    let nonce = aes256gcm_nonce();
    let message = sample_message();
    let ciphertext = aes256gcm_encrypt(key.as_slice(), nonce.as_slice(), message.as_slice());
    match aes256gcm_decrypt(key.as_slice(), nonce.as_slice(), ciphertext.as_slice()) {
        Some(plaintext) => bytes_eq(message.as_slice(), plaintext.as_slice()),
        None => false,
    }
}

/// Encrypts `data` under the public half of a fresh `bits`-bit RSA key pair
/// and decrypts it with the private half. `Some(same)` tells whether the
/// decrypted bytes equal `data`, and a completed round trip always gives them
/// back; `None` tells that a step failed. From 64 bits on, the round trip
/// completes exactly when `data` fits the key with its padding.
pub fn rsa_round_trip(bits: usize, data: &[u8]) -> (res: Option<bool>)
    requires
        bits <= 4096,
    ensures
        res matches Some(same) ==> same,
        bits >= 64 ==> (res is Some <==> data@.len() <= rsa_max_message_len(bits as nat)),
{
    let mut rng = thread_rng();
    let pair = match rsa_generate(&mut rng, bits) {
        Some(p) => p,
        None => return None,
    };
    let encrypted = match rsa_encrypt(&pair, &mut rng, data) {
        Some(c) => c,
        None => return None,
    };
    match rsa_decrypt(&pair, encrypted.as_slice()) {
        Some(decrypted) => Some(bytes_eq(data, decrypted.as_slice())),
        None => None,
    }
}

/// Start-up check of the asymmetric cipher: a round trip of the sample
/// message through a fresh 2048-bit RSA key pair. It always passes.
pub fn asymmetric_encryption_test() -> (passed: bool)
    ensures
        passed,
{
    let message = sample_message();
    match rsa_round_trip(2048, message.as_slice()) {
        Some(same) => same,
        None => false,
    }
}

/// Start-up check of password hashing: hashes the sample password under a
/// fresh salt and checks the password against the stored string. It always
/// passes.
pub fn password_hashing_test() -> (passed: bool)
    ensures
        passed,
{
    // "hello password!"
    let password: Vec<u8> = vec![104u8, 101, 108, 108, 111, 32, 112, 97, 115, 115, 119, 111, 114, 100, 33];
    let salt = generate_salt();
    match argon2_hash(password.as_slice(), salt.as_str()) {
        Some(hash) => {
            match argon2_verify(password.as_slice(), hash.as_str()) {
                Some(ok) => ok,
                None => false,
            }
        },
        None => {
            assert(argon2_phc(password@, salt@) is Some);
            false
        },
    }
}

} // verus!
