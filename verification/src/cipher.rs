//! Sealing and unsealing of message payloads: AES-256-GCM under one secret
//! key, with a fresh random nonce for every sealed record.
//!
//! A sealed record is kept as text, the nonce and the ciphertext (which ends
//! in the authentication tag) each written in hexadecimal.

use crate::hex;
use aes_gcm::aead::generic_array::GenericArray;
use aes_gcm::aead::Aead;
use aes_gcm::{Aes256Gcm, KeyInit};
use vstd::prelude::*;

verus! {

/// Bytes in a key.
pub const KEY_LEN: usize = 32;

/// Bytes in a nonce.
pub const NONCE_LEN: usize = 12;

/// Bytes in the authentication tag that ends every ciphertext.
pub const TAG_LEN: usize = 16;

/// The longest plaintext, in bytes, that one record can seal.
pub const MAX_PLAINTEXT_LEN: u64 = 0x10_0000_0000;

/// Why sealing or unsealing failed.
#[derive(Clone, Copy, Debug, PartialEq, Eq, Structural)]
pub enum CipherError {
    /// The record does not unseal under this key: its text is malformed, it
    /// was altered, or it was sealed under another key.
    Integrity,
    /// No record could be made: the random source or the cipher refused.
    EncryptionFailure,
}

/// A sealed payload as it is stored: nonce and ciphertext in hexadecimal.
#[derive(Debug)]
pub struct SealedRecord {
    pub nonce: String,
    pub ciphertext: String,
}

/// What a sealed record holds, as plain text.
pub struct SealedRecordView {
    pub nonce: Seq<char>,
    pub ciphertext: Seq<char>,
}

impl View for SealedRecord {
    type V = SealedRecordView;

    open spec fn view(&self) -> SealedRecordView {
        SealedRecordView { nonce: self.nonce@, ciphertext: self.ciphertext@ }
    }
}

/// `aes_gcm::Error`: the error of every call into the cipher. It says that
/// the call failed and, on purpose, nothing of why.
#[verifier::external_type_specification]
#[verifier::external_body]
pub struct ExCipherFailure(aes_gcm::Error);

/// `getrandom::Error`: the error of the system's random source.
#[verifier::external_type_specification]
#[verifier::external_body]
pub struct ExRandomFailure(getrandom::Error);

/// The ciphertext, tag included, that AES-256-GCM gives for `plaintext` under
/// `key` and `nonce`, without associated data.
pub uninterp spec fn gcm_sealed(key: Seq<u8>, nonce: Seq<u8>, plaintext: Seq<u8>) -> Seq<u8>;

/// The plaintext that AES-256-GCM recovers from `sealed` under `key` and
/// `nonce`, or `None` where the tag does not verify.
pub uninterp spec fn gcm_opened(key: Seq<u8>, nonce: Seq<u8>, sealed: Seq<u8>) -> Option<Seq<u8>>;

/// The record that sealing `plaintext` under `key` gives when `nonce` is drawn.
pub open spec fn seal_spec(key: Seq<u8>, nonce: Seq<u8>, plaintext: Seq<u8>) -> SealedRecordView {
    SealedRecordView {
        nonce: hex::encode_spec(nonce),
        ciphertext: hex::encode_spec(gcm_sealed(key, nonce, plaintext)),
    }
}

/// The nonce and ciphertext bytes that a record's text stands for: both texts
/// must be hexadecimal, and the nonce of the right length.
pub open spec fn parts_spec(record: SealedRecordView) -> Option<(Seq<u8>, Seq<u8>)> {
    match (hex::decode_spec(record.nonce), hex::decode_spec(record.ciphertext)) {
        (Some(nonce), Some(sealed)) => if nonce.len() == NONCE_LEN {
            Some((nonce, sealed))
        } else {
            None
        },
        _ => None,
    }
}

/// What unsealing `record` under `key` gives: the plaintext where the record
/// is well formed and its tag verifies, an integrity error otherwise.
pub open spec fn unseal_spec(key: Seq<u8>, record: SealedRecordView) -> Result<
    Seq<u8>,
    CipherError,
> {
    match parts_spec(record) {
        Some((nonce, sealed)) => match gcm_opened(key, nonce, sealed) {
            Some(plaintext) => Ok(plaintext),
            None => Err(CipherError::Integrity),
        },
        None => Err(CipherError::Integrity),
    }
}

/// `Aead::encrypt` of `aes_gcm::Aes256Gcm`, on a cipher made from `key` by
/// `KeyInit::new`. Trusted: the call refuses exactly the plaintexts longer
/// than `MAX_PLAINTEXT_LEN`; what it returns is the plaintext's length plus
/// the tag, depends on the three arguments alone, and decrypts under the same
/// key and nonce to the plaintext it was given.
#[verifier::external_body]
fn gcm_encrypt(key: &[u8; KEY_LEN], nonce: &[u8; NONCE_LEN], plaintext: &[u8]) -> (sealed: Result<
    Vec<u8>,
    aes_gcm::Error,
>)
    ensures
        sealed is Ok <==> plaintext@.len() <= MAX_PLAINTEXT_LEN,
        sealed matches Ok(bytes) ==> {
            &&& bytes@ == gcm_sealed(key@, nonce@, plaintext@)
            &&& bytes@.len() == plaintext@.len() + TAG_LEN
            &&& gcm_opened(key@, nonce@, bytes@) == Some(plaintext@)
        },
{
    Aes256Gcm::new(GenericArray::from_slice(key)).encrypt(GenericArray::from_slice(nonce), plaintext)
}

/// `Aead::decrypt` of `aes_gcm::Aes256Gcm`, on a cipher made from `key` by
/// `KeyInit::new`. Trusted: the outcome depends on the three arguments alone,
/// input shorter than a tag is refused, and a recovered plaintext is shorter
/// than the input by the tag.
#[verifier::external_body]
fn gcm_decrypt(key: &[u8; KEY_LEN], nonce: &[u8], sealed: &[u8]) -> (plaintext: Result<
    Vec<u8>,
    aes_gcm::Error,
>)
    requires
        nonce@.len() == NONCE_LEN,
    ensures
        match plaintext {
            Ok(bytes) => gcm_opened(key@, nonce@, sealed@) == Some(bytes@),
            Err(_) => gcm_opened(key@, nonce@, sealed@) is None,
        },
        sealed@.len() < TAG_LEN ==> plaintext is Err,
        plaintext matches Ok(bytes) ==> bytes@.len() + TAG_LEN == sealed@.len(),
{
    Aes256Gcm::new(GenericArray::from_slice(key)).decrypt(GenericArray::from_slice(nonce), sealed)
}

/// `getrandom::getrandom` on a fresh buffer of `N` bytes: the operating
/// system's secure random source. Nothing is claimed of the bytes, nor that
/// the source answers.
#[verifier::external_body]
fn random_array<const N: usize>() -> (bytes: Result<[u8; N], getrandom::Error>) {
    let mut buffer = [0u8; N];
    getrandom::getrandom(&mut buffer)?;
    Ok(buffer)
}

impl Clone for SealedRecord {
    fn clone(&self) -> (copy: SealedRecord)
        ensures
            copy@ == self@,
    {
        SealedRecord { nonce: self.nonce.clone(), ciphertext: self.ciphertext.clone() }
    }
}

impl SealedRecord {
    /// The stored form of a nonce and the ciphertext made with it.
    pub fn from_bytes(nonce: &[u8], sealed: &[u8]) -> (record: SealedRecord)
        ensures
            record@.nonce == hex::encode_spec(nonce@),
            record@.ciphertext == hex::encode_spec(sealed@),
    {
        SealedRecord { nonce: hex::encode(nonce), ciphertext: hex::encode(sealed) }
    }

    /// The nonce and the ciphertext that the record's text stands for, or
    /// `None` where the text is malformed.
    pub fn to_bytes(&self) -> (parts: Option<(Vec<u8>, Vec<u8>)>)
        ensures
            match parts {
                Some((nonce, sealed)) => parts_spec(self@) == Some((nonce@, sealed@)),
                None => parts_spec(self@) is None,
            },
    {
        let nonce = match hex::decode(self.nonce.as_str()) {
            Some(bytes) => bytes,
            None => {
                return None;
            },
        };
        let sealed = match hex::decode(self.ciphertext.as_str()) {
            Some(bytes) => bytes,
            None => {
                return None;
            },
        };
        if nonce.len() != NONCE_LEN {
            return None;
        }
        Some((nonce, sealed))
    }
}

/// Unsealing what was sealed gives the plaintext back, whenever the cipher
/// itself does so for the record's nonce and ciphertext.
proof fn lemma_unseal_sealed(key: Seq<u8>, nonce: Seq<u8>, plaintext: Seq<u8>)
    requires
        nonce.len() == NONCE_LEN,
        gcm_opened(key, nonce, gcm_sealed(key, nonce, plaintext)) == Some(plaintext),
    ensures
        unseal_spec(key, seal_spec(key, nonce, plaintext)) == Ok::<Seq<u8>, CipherError>(plaintext),
{
    hex::lemma_decode_encode(nonce);
    hex::lemma_decode_encode(gcm_sealed(key, nonce, plaintext));
}

/// Unsealing fails closed: whatever the key, a record whose text is
/// malformed gives an integrity error, and no record gives any other error.
pub proof fn lemma_unseal_fails_closed(key: Seq<u8>, record: SealedRecordView)
    ensures
        !hex::well_formed(record.nonce) ==> unseal_spec(key, record) == Err::<
            Seq<u8>,
            CipherError,
        >(CipherError::Integrity),
        !hex::well_formed(record.ciphertext) ==> unseal_spec(key, record) == Err::<
            Seq<u8>,
            CipherError,
        >(CipherError::Integrity),
        record.nonce.len() != 2 * NONCE_LEN ==> unseal_spec(key, record) == Err::<
            Seq<u8>,
            CipherError,
        >(CipherError::Integrity),
        unseal_spec(key, record) is Err ==> unseal_spec(key, record) == Err::<
            Seq<u8>,
            CipherError,
        >(CipherError::Integrity),
{
}

/// A record whose text was altered in any way no longer stands for the nonce
/// and ciphertext that it stood for: either its text is malformed, and it
/// unseals under no key, or it stands for another nonce or another
/// ciphertext, and it is for the cipher's tag to tell.
pub proof fn lemma_altered_text_alters_bytes(record: SealedRecordView, altered: SealedRecordView)
    requires
        altered != record,
        parts_spec(record) is Some,
    ensures
        parts_spec(altered) != parts_spec(record),
        parts_spec(altered) is None ==> forall|key: Seq<u8>| #[trigger]
            unseal_spec(key, altered) == Err::<Seq<u8>, CipherError>(CipherError::Integrity),
{
    if parts_spec(altered) == parts_spec(record) {
        hex::lemma_decode_injective(record.nonce, altered.nonce);
        hex::lemma_decode_injective(record.ciphertext, altered.ciphertext);
        assert(altered.nonce == record.nonce);
        assert(altered.ciphertext == record.ciphertext);
        assert(false);
    }
}

/// The sealing engine: one secret key, fixed when the engine is made.
pub struct Cipher {
    key: [u8; KEY_LEN],
}

impl Cipher {
    /// The engine's key.
    pub closed spec fn key(&self) -> Seq<u8> {
        self.key@
    }

    /// An engine that seals under `key`.
    pub fn new(key: [u8; KEY_LEN]) -> (cipher: Cipher)
        ensures
            cipher.key() == key@,
            cipher.key().len() == KEY_LEN,
    {
        Cipher { key }
    }

    /// An engine with a key drawn from the system's secure random source, or
    /// `None` where that source fails.
    pub fn generate() -> (cipher: Option<Cipher>)
        ensures
            cipher matches Some(made) ==> made.key().len() == KEY_LEN,
    {
        drawn_cipher(random_array::<KEY_LEN>())
    }

    /// Seals `plaintext` with the nonce given. Sealing two plaintexts under
    /// one nonce and key gives both away: callers draw every nonce afresh, as
    /// `seal` does.
    pub fn seal_with_nonce(&self, plaintext: &[u8], nonce: &[u8; NONCE_LEN]) -> (sealed: Result<
        SealedRecord,
        CipherError,
    >)
        ensures
            match sealed {
                Ok(record) => {
                    &&& plaintext@.len() <= MAX_PLAINTEXT_LEN
                    &&& record@ == seal_spec(self.key(), nonce@, plaintext@)
                    &&& record@.nonce.len() == 2 * NONCE_LEN
                    &&& record@.ciphertext.len() == 2 * (plaintext@.len() + TAG_LEN)
                    &&& unseal_spec(self.key(), record@) == Ok::<Seq<u8>, CipherError>(plaintext@)
                },
                Err(e) => plaintext@.len() > MAX_PLAINTEXT_LEN && e == CipherError::EncryptionFailure,
            },
    {
        let record = sealed_record(nonce, gcm_encrypt(&self.key, nonce, plaintext));
        proof {
            if record is Ok {
                lemma_unseal_sealed(self.key(), nonce@, plaintext@);
                hex::lemma_encode_well_formed(nonce@);
                hex::lemma_encode_well_formed(gcm_sealed(self.key(), nonce@, plaintext@));
            }
        }
        record
    }

    /// Seals `plaintext` under a nonce drawn from the system's secure random
    /// source. Fails only where that source fails or the plaintext is longer
    /// than `MAX_PLAINTEXT_LEN`.
    pub fn seal(&self, plaintext: &[u8]) -> (sealed: Result<SealedRecord, CipherError>)
        ensures
            match sealed {
                Ok(record) => {
                    &&& plaintext@.len() <= MAX_PLAINTEXT_LEN
                    &&& exists|nonce: Seq<u8>|
                        nonce.len() == NONCE_LEN && record@ == #[trigger] seal_spec(
                            self.key(),
                            nonce,
                            plaintext@,
                        )
                    &&& record@.nonce.len() == 2 * NONCE_LEN
                    &&& record@.ciphertext.len() == 2 * (plaintext@.len() + TAG_LEN)
                    &&& unseal_spec(self.key(), record@) == Ok::<Seq<u8>, CipherError>(plaintext@)
                },
                Err(e) => e == CipherError::EncryptionFailure,
            },
            plaintext@.len() > MAX_PLAINTEXT_LEN ==> sealed is Err,
    {
        match random_array::<NONCE_LEN>() {
            Ok(nonce) => {
                let sealed = self.seal_with_nonce(plaintext, &nonce);
                proof {
                    if sealed is Ok {
                        assert(sealed.unwrap()@ == seal_spec(self.key(), nonce@, plaintext@));
                    }
                }
                sealed
            },
            Err(_) => Err(CipherError::EncryptionFailure),
        }
    }

    /// Unseals `record`: the plaintext where the record's text is well formed
    /// and its tag verifies under this key, an integrity error otherwise.
    /// Nothing of the plaintext is given out unless all of it verified.
    pub fn unseal(&self, record: &SealedRecord) -> (plaintext: Result<Vec<u8>, CipherError>)
        ensures
            match plaintext {
                Ok(bytes) => unseal_spec(self.key(), record@) == Ok::<Seq<u8>, CipherError>(bytes@),
                Err(e) => e == CipherError::Integrity && unseal_spec(self.key(), record@) == Err::<
                    Seq<u8>,
                    CipherError,
                >(CipherError::Integrity),
            },
            match parts_spec(record@) {
                Some((nonce, sealed)) => {
                    &&& sealed.len() < TAG_LEN ==> plaintext is Err
                    &&& plaintext matches Ok(bytes) ==> bytes@.len() + TAG_LEN == sealed.len()
                },
                None => plaintext is Err,
            },
    {
        match record.to_bytes() {
            Some((nonce, sealed)) => opened(
                gcm_decrypt(&self.key, nonce.as_slice(), sealed.as_slice()),
            ),
            None => Err(CipherError::Integrity),
        }
    }
}

/// The engine for what the random source gave when a key was asked of it:
/// one that seals under the key drawn, or none where the source failed.
pub fn drawn_cipher(drawn: Result<[u8; KEY_LEN], getrandom::Error>) -> (cipher: Option<Cipher>)
    ensures
        match drawn {
            Ok(key) => cipher matches Some(made) && made.key() == key@ && made.key().len()
                == KEY_LEN,
            Err(_) => cipher is None,
        },
{
    match drawn {
        Ok(key) => Some(Cipher::new(key)),
        Err(_) => None,
    }
}

/// The outcome of sealing, from the nonce and what the cipher made of the
/// plaintext under it: the record in its stored form, or the failure.
pub fn sealed_record(nonce: &[u8; NONCE_LEN], encrypted: Result<Vec<u8>, aes_gcm::Error>) -> (sealed:
    Result<SealedRecord, CipherError>)
    ensures
        match encrypted {
            Ok(bytes) => sealed matches Ok(record) && record@ == (SealedRecordView {
                nonce: hex::encode_spec(nonce@),
                ciphertext: hex::encode_spec(bytes@),
            }),
            Err(_) => sealed matches Err(e) && e == CipherError::EncryptionFailure,
        },
{
    match encrypted {
        Ok(bytes) => Ok(SealedRecord::from_bytes(nonce.as_slice(), bytes.as_slice())),
        Err(_) => Err(CipherError::EncryptionFailure),
    }
}

/// The outcome of unsealing, from what the cipher made of the ciphertext: the
/// plaintext, or an integrity error where the cipher refused.
pub fn opened(recovered: Result<Vec<u8>, aes_gcm::Error>) -> (plaintext: Result<
    Vec<u8>,
    CipherError,
>)
    ensures
        match recovered {
            Ok(bytes) => plaintext == Ok::<Vec<u8>, CipherError>(bytes),
            Err(_) => plaintext == Err::<Vec<u8>, CipherError>(CipherError::Integrity),
        },
{
    match recovered {
        Ok(bytes) => Ok(bytes),
        Err(_) => Err(CipherError::Integrity),
    }
}

} // verus!
