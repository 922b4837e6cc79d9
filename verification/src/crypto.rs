//! Authenticated encryption of sensitive fields: AES-256-GCM with a
//! 256-bit key and a fresh random 12-byte nonce per message, transported
//! as base64 of nonce followed by ciphertext-with-tag.
//!
//! Sealing is a pure function of key, nonce and plaintext, named
//! `aead_seal`; opening is named `aead_open` and inverts it under the
//! same key and nonce. Everything around the cipher calls is verified
//! against those names.

use vstd::prelude::*;
use aes_gcm::Aes256Gcm;
use aes_gcm::aead::Aead;
use aes_gcm::aead::Generate;
use aes_gcm::aead::KeyInit;
use crate::encoding::b64_of;
use crate::encoding::base64_decode;
use crate::encoding::base64_encode;

verus! {

/// The AES-256-GCM sealing of a plaintext's UTF-8 bytes under a key and
/// nonce: ciphertext with the authentication tag appended.
pub uninterp spec fn aead_seal(key: Seq<u8>, nonce: Seq<u8>, plaintext: Seq<char>) -> Seq<u8>;

/// The AES-256-GCM opening of a ciphertext under a key and nonce,
/// decoded as UTF-8: the plaintext, or nothing when the nonce is not
/// twelve bytes, authentication fails, or the bytes are not UTF-8.
pub uninterp spec fn aead_open(key: Seq<u8>, nonce: Seq<u8>, ciphertext: Seq<u8>) -> Option<
    Seq<char>,
>;

/// Relies on aes_gcm's `Aes256Gcm` (`KeyInit::new_from_slice`,
/// `Aead::encrypt`) and crypto-common's `Generate` for the random nonce:
/// sealing is a pure function of key, nonce and plaintext bytes, the
/// generated nonce is twelve bytes, and decrypting the result under the
/// same key and nonce yields the plaintext back.
#[verifier::external_body]
fn aead_encrypt(key: &Vec<u8>, plaintext: &str) -> (r: Result<(Vec<u8>, Vec<u8>), ()>)
    requires
        key@.len() == 32,
    ensures
        r matches Ok(p) ==> (p.0@.len() == 12 && p.1@ == aead_seal(key@, p.0@, plaintext@)
            && aead_open(key@, p.0@, p.1@) == Option::Some(plaintext@)),
{
    let cipher = Aes256Gcm::new_from_slice(key.as_slice()).map_err(|_| ())?;
    let nonce = aes_gcm::Nonce::<aes_gcm::aead::consts::U12>::try_generate().map_err(|_| ())?;
    let ciphertext = cipher.encrypt(&nonce, plaintext.as_bytes()).map_err(|_| ())?;
    Ok((nonce.to_vec(), ciphertext))
}

/// Relies on aes_gcm's `Aes256Gcm` (`KeyInit::new_from_slice`,
/// `Aead::decrypt`) and std's `String::from_utf8`: opening is a pure
/// function of key, nonce and ciphertext, and fails exactly when the
/// nonce is not twelve bytes, authentication fails, or the plaintext is
/// not UTF-8.
#[verifier::external_body]
fn aead_decrypt(key: &Vec<u8>, nonce: &Vec<u8>, ciphertext: &Vec<u8>) -> (r: Result<String, ()>)
    requires
        key@.len() == 32,
    ensures
        match aead_open(key@, nonce@, ciphertext@) {
            Option::Some(p) => r matches Ok(s) && s@ == p,
            Option::None => r is Err,
        },
{
    let cipher = Aes256Gcm::new_from_slice(key.as_slice()).map_err(|_| ())?;
    let nonce = aes_gcm::Nonce::<aes_gcm::aead::consts::U12>::try_from(nonce.as_slice()).map_err(
        |_| (),
    )?;
    let plaintext = cipher.decrypt(&nonce, ciphertext.as_slice()).map_err(|_| ())?;
    String::from_utf8(plaintext).map_err(|_| ())
}

/// Relies on crypto-common's `Generate` for the key array: thirty-two
/// random bytes from the system's secure source; nothing else can be
/// said of a random value.
#[verifier::external_body]
fn generate_key_bytes() -> (r: Result<Vec<u8>, ()>)
    ensures
        r matches Ok(k) ==> k@.len() == 32,
{
    match aes_gcm::Key::<Aes256Gcm>::try_generate() {
        Ok(k) => Ok(k.to_vec()),
        Err(_) => Err(()),
    }
}

/// Why a cryptographic operation was refused or failed.
#[derive(Debug, Clone, Copy, PartialEq, Eq, Structural)]
pub enum CryptoError {
    /// The key does not decode to exactly thirty-two bytes.
    InvalidKeySize,
    /// The input is not valid base64.
    InvalidBase64,
    /// The decoded data is shorter than a nonce.
    DataTooShort,
    /// The cipher could not encrypt (or no randomness was available).
    EncryptionFailed,
    /// Authentication failed, or the plaintext is not UTF-8.
    DecryptionFailed,
}

/// A nonce and a ciphertext-with-tag, as produced by one encryption.
#[derive(Debug, Clone)]
pub struct EncryptedData {
    /// Random nonce used for this encryption (twelve bytes).
    pub nonce: Vec<u8>,
    /// Encrypted data with the authentication tag.
    pub ciphertext: Vec<u8>,
}

impl EncryptedData {
    /// Encodes nonce followed by ciphertext as base64.
    pub fn to_base64(&self) -> (r: String)
        ensures
            r@ == b64_of(self.nonce@ + self.ciphertext@),
    {
        let mut combined: Vec<u8> = Vec::new();
        combined.extend_from_slice(self.nonce.as_slice());
        combined.extend_from_slice(self.ciphertext.as_slice());
        proof {
            assert(combined@ =~= self.nonce@ + self.ciphertext@);
        }
        base64_encode(combined.as_slice())
    }

    /// Decodes base64 into nonce (the first twelve bytes) and
    /// ciphertext: accepted exactly when the input is valid base64 of at
    /// least twelve bytes, and the decoded bytes are the unique preimage
    /// of the input; each error names its cause exactly.
    pub fn from_base64(encoded: &str) -> (r: Result<Self, CryptoError>)
        ensures
            r matches Ok(ed) ==> (ed.nonce@.len() == 12 && b64_of(ed.nonce@ + ed.ciphertext@)
                == encoded@ && (forall|b2: Seq<u8>|
                b64_of(b2) == encoded@ ==> b2 == ed.nonce@ + ed.ciphertext@)),
            (r is Ok <==> exists|b: Seq<u8>| b64_of(b) == encoded@ && b.len() >= 12),
            (r == Err::<Self, CryptoError>(CryptoError::InvalidBase64) <==> forall|b: Seq<u8>|
                b64_of(b) != encoded@),
            (r == Err::<Self, CryptoError>(CryptoError::DataTooShort) <==> exists|b: Seq<u8>|
                b64_of(b) == encoded@ && b.len() < 12),
    {
        let decoded = match base64_decode(encoded) {
            Some(b) => b,
            None => {
                return Err(CryptoError::InvalidBase64);
            },
        };
        if decoded.len() < 12 {
            return Err(CryptoError::DataTooShort);
        }
        let mut nonce: Vec<u8> = Vec::new();
        let mut i: usize = 0;
        while i < 12
            invariant
                i <= 12,
                decoded@.len() >= 12,
                nonce@ == decoded@.subrange(0, i as int),
            decreases 12 - i,
        {
            let b = decoded[i];
            nonce.push(b);
            proof {
                assert(decoded@.subrange(0, i + 1 as int) =~= decoded@.subrange(0, i as int).push(
                    b,
                ));
            }
            i += 1;
        }
        let mut ciphertext: Vec<u8> = Vec::new();
        let mut j: usize = 12;
        while j < decoded.len()
            invariant
                12 <= j <= decoded@.len(),
                ciphertext@ == decoded@.subrange(12, j as int),
            decreases decoded@.len() - j,
        {
            let b = decoded[j];
            ciphertext.push(b);
            proof {
                assert(decoded@.subrange(12, j + 1 as int) =~= decoded@.subrange(12, j as int).push(
                    b,
                ));
            }
            j += 1;
        }
        proof {
            assert(nonce@ + ciphertext@ =~= decoded@);
        }
        Ok(EncryptedData { nonce, ciphertext })
    }
}

/// Field encryption service holding the 256-bit key.
pub struct CryptoService {
    key: Vec<u8>,
}

impl CryptoService {
    /// A usable service: the key is exactly thirty-two bytes.
    pub closed spec fn wf(self) -> bool {
        self.key@.len() == 32
    }

    /// The key bytes.
    pub closed spec fn key_view(self) -> Seq<u8> {
        self.key@
    }

    /// A service from raw key bytes: accepted exactly when the key is
    /// thirty-two bytes.
    pub fn new(key_bytes: &[u8]) -> (r: Result<Self, CryptoError>)
        ensures
            r matches Ok(s) ==> (s.wf() && s.key_view() == key_bytes@),
            (r is Ok <==> key_bytes@.len() == 32),
            r is Err ==> r == Err::<Self, CryptoError>(CryptoError::InvalidKeySize),
    {
        if key_bytes.len() != 32 {
            return Err(CryptoError::InvalidKeySize);
        }
        let mut key: Vec<u8> = Vec::new();
        key.extend_from_slice(key_bytes);
        proof {
            assert(key@ =~= key_bytes@);
        }
        Ok(CryptoService { key })
    }

    /// A service from a base64-encoded key: accepted exactly when the
    /// input decodes to thirty-two bytes.
    pub fn from_base64_key(key_b64: &str) -> (r: Result<Self, CryptoError>)
        ensures
            r matches Ok(s) ==> (s.wf() && s.key_view().len() == 32 && b64_of(s.key_view())
                == key_b64@),
            (r is Ok <==> exists|b: Seq<u8>| b64_of(b) == key_b64@ && b.len() == 32),
            (r == Err::<Self, CryptoError>(CryptoError::InvalidBase64) <==> forall|b: Seq<u8>|
                b64_of(b) != key_b64@),
    {
        let decoded = match base64_decode(key_b64) {
            Some(b) => b,
            None => {
                return Err(CryptoError::InvalidBase64);
            },
        };
        Self::new(decoded.as_slice())
    }

    /// Encrypts a field under a fresh random nonce. On success the
    /// ciphertext is exactly the sealing of the plaintext under the key
    /// and that nonce, and opening it yields the plaintext back.
    pub fn encrypt(&self, plaintext: &str) -> (r: Result<EncryptedData, CryptoError>)
        requires
            self.wf(),
        ensures
            r matches Ok(ed) ==> (ed.nonce@.len() == 12 && ed.ciphertext@ == aead_seal(
                self.key_view(),
                ed.nonce@,
                plaintext@,
            ) && aead_open(self.key_view(), ed.nonce@, ed.ciphertext@) == Option::Some(
                plaintext@,
            )),
    {
        match aead_encrypt(&self.key, plaintext) {
            Ok((nonce, ciphertext)) => Ok(EncryptedData { nonce, ciphertext }),
            Err(()) => Err(CryptoError::EncryptionFailed),
        }
    }

    /// Decrypts: returns exactly the opening of the ciphertext under the
    /// key and nonce, and fails exactly when that opening fails.
    pub fn decrypt(&self, encrypted: &EncryptedData) -> (r: Result<String, CryptoError>)
        requires
            self.wf(),
        ensures
            match aead_open(self.key_view(), encrypted.nonce@, encrypted.ciphertext@) {
                Option::Some(p) => r matches Ok(s) && s@ == p,
                Option::None => r == Err::<String, CryptoError>(CryptoError::DecryptionFailed),
            },
    {
        match aead_decrypt(&self.key, &encrypted.nonce, &encrypted.ciphertext) {
            Ok(s) => Ok(s),
            Err(()) => Err(CryptoError::DecryptionFailed),
        }
    }

    /// Encrypts and encodes as base64 in one step: on success the result
    /// is the base64 of a twelve-byte nonce followed by the sealing of
    /// the plaintext under it, and that sealing opens back to the
    /// plaintext.
    pub fn encrypt_to_base64(&self, plaintext: &str) -> (r: Result<String, CryptoError>)
        requires
            self.wf(),
        ensures
            r matches Ok(s) ==> (exists|n: Seq<u8>|
                n.len() == 12 && s@ == b64_of(n + aead_seal(self.key_view(), n, plaintext@))
                    && aead_open(
                    self.key_view(),
                    n,
                    aead_seal(self.key_view(), n, plaintext@),
                ) == Option::Some(plaintext@)),
    {
        let encrypted = self.encrypt(plaintext)?;
        let encoded = encrypted.to_base64();
        proof {
            let n = encrypted.nonce@;
            assert(n.len() == 12 && encoded@ == b64_of(
                n + aead_seal(self.key_view(), n, plaintext@),
            ) && aead_open(self.key_view(), n, aead_seal(self.key_view(), n, plaintext@))
                == Option::Some(plaintext@));
        }
        Ok(encoded)
    }

    /// Decodes and decrypts in one step. Whenever the input is the
    /// base64 of a twelve-byte nonce and a ciphertext that opens to a
    /// plaintext under the key, that plaintext is returned: decrypting
    /// what `encrypt_to_base64` produced yields the original field.
    pub fn decrypt_from_base64(&self, encoded: &str) -> (r: Result<String, CryptoError>)
        requires
            self.wf(),
        ensures
            forall|b: Seq<u8>, p: Seq<char>|
                (b64_of(b) == encoded@ && b.len() >= 12 && aead_open(
                    self.key_view(),
                    b.take(12),
                    b.skip(12),
                ) == Option::Some(p)) ==> (r matches Ok(s) && s@ == p),
    {
        let encrypted = match EncryptedData::from_base64(encoded) {
            Ok(ed) => ed,
            Err(e) => {
                proof {
                    assert forall|b: Seq<u8>, p: Seq<char>|
                        !(b64_of(b) == encoded@ && b.len() >= 12 && aead_open(
                            self.key_view(),
                            b.take(12),
                            b.skip(12),
                        ) == Option::Some(p)) by {
                        if b64_of(b) == encoded@ && b.len() >= 12 {
                            assert(false);
                        }
                    }
                }
                return Err(e);
            },
        };
        let r = self.decrypt(&encrypted);
        proof {
            assert forall|b: Seq<u8>, p: Seq<char>|
                (b64_of(b) == encoded@ && b.len() >= 12 && aead_open(
                    self.key_view(),
                    b.take(12),
                    b.skip(12),
                ) == Option::Some(p)) implies (r matches Ok(s) && s@ == p) by {
                assert(b == encrypted.nonce@ + encrypted.ciphertext@);
                assert(b.take(12) =~= encrypted.nonce@);
                assert(b.skip(12) =~= encrypted.ciphertext@);
            }
        }
        match r {
            Ok(s) => Ok(s),
            Err(e) => Err(e),
        }
    }
}

/// Round-trip law: decrypting what `encrypt` produced under the same
/// service yields the original plaintext. Whenever encryption succeeds
/// the result is the plaintext itself — the decryption branch cannot
/// fail, which Verus checks below — and the composition never returns
/// anything else.
pub fn encrypt_then_decrypt(service: &CryptoService, plaintext: &str) -> (r: Option<String>)
    requires
        service.wf(),
    ensures
        r matches Some(s) ==> s@ == plaintext@,
{
    match service.encrypt(plaintext) {
        Err(_) => None,
        Ok(encrypted) => match service.decrypt(&encrypted) {
            Ok(s) => Some(s),
            Err(_) => {
                proof {
                    // Unreachable: the opening of what encrypt sealed is
                    // the plaintext, so decrypt cannot have failed.
                    assert(false);
                }
                None
            },
        },
    }
}

/// Generates a fresh random 256-bit key, base64-encoded, suitable for
/// `CryptoService::from_base64_key`.
pub fn generate_key() -> (r: Result<String, CryptoError>)
    ensures
        r matches Ok(s) ==> (exists|k: Seq<u8>| k.len() == 32 && s@ == b64_of(k)),
{
    match generate_key_bytes() {
        Ok(k) => Ok(base64_encode(k.as_slice())),
        Err(()) => Err(CryptoError::EncryptionFailed),
    }
}

} // verus!
