//! Sealing text under a 256-bit session key: AES-256-GCM with a random
//! 12-byte nonce, the nonce and ciphertext together written in base64.
use vstd::prelude::*;
use vstd::utf8::{decode_utf8, valid_utf8};
use vstd::string::StringSliceAdditionalSpecFns;
use aes_gcm::aead::{Aead, AeadCore, KeyInit, OsRng};
use aes_gcm::Aes256Gcm;
use base64::Engine;

verus! {

/// The length of a nonce, in bytes.
pub const NONCE_LEN: usize = 12;

/// The longest plaintext the cipher seals, in bytes: 2^36.
pub const MAX_PLAINTEXT: u64 = 0x10_0000_0000;

/// The length of the authentication tag that follows a ciphertext, in bytes.
pub const TAG_LEN: usize = 16;

/// Why sealing or opening failed.
#[derive(PartialEq, Eq, Structural, Debug, Clone, Copy)]
pub enum VaultError {
    /// The cipher refused to encrypt.
    Encrypt,
    /// The packet is not valid base64.
    Decode,
    /// The packet is shorter than a nonce.
    TooShort,
    /// Wrong key or corrupted data.
    Decrypt,
    /// The plaintext is not UTF-8.
    Utf8,
}

/// What AES-256-GCM encryption gives for a key, a nonce and a plaintext, if it
/// accepts them.
pub uninterp spec fn gcm_seal(key: Seq<u8>, nonce: Seq<u8>, plain: Seq<u8>) -> Option<Seq<u8>>;

/// What AES-256-GCM decryption gives for a key, a nonce and a ciphertext, if
/// the tag checks.
pub uninterp spec fn gcm_open(key: Seq<u8>, nonce: Seq<u8>, sealed: Seq<u8>) -> Option<Seq<u8>>;

/// The character codes of a text.
pub open spec fn codes(text: Seq<char>) -> Seq<u32> {
    text.map_values(|c: char| c as u32)
}

/// The code of the standard base64 digit for `v` (0 to 63): `A`-`Z`,
/// `a`-`z`, `0`-`9`, `+`, `/`.
pub open spec fn b64_digit(v: int) -> u32 {
    if v < 26 {
        (65 + v) as u32
    } else if v < 52 {
        (97 + v - 26) as u32
    } else if v < 62 {
        (48 + v - 52) as u32
    } else if v == 62 {
        43
    } else {
        47
    }
}

/// The code of the padding character `=`.
pub const B64_PAD: u32 = 61;

/// The character codes of the standard base64 text of a byte string: each
/// group of three bytes gives four digits; a last group of one or two bytes
/// gives two or three digits and is padded to four with `=`.
pub open spec fn base64_codes(b: Seq<u8>) -> Seq<u32>
    decreases b.len(),
{
    let x = if b.len() > 0 { b[0] as int } else { 0 };
    let y = if b.len() > 1 { b[1] as int } else { 0 };
    let z = if b.len() > 2 { b[2] as int } else { 0 };
    if b.len() == 0 {
        Seq::empty()
    } else if b.len() == 1 {
        seq![b64_digit(x / 4), b64_digit((x % 4) * 16), B64_PAD, B64_PAD]
    } else if b.len() == 2 {
        seq![b64_digit(x / 4), b64_digit((x % 4) * 16 + y / 16), b64_digit((y % 16) * 4), B64_PAD]
    } else {
        seq![
            b64_digit(x / 4),
            b64_digit((x % 4) * 16 + y / 16),
            b64_digit((y % 16) * 4 + z / 64),
            b64_digit(z % 64),
        ] + base64_codes(b.subrange(3, b.len() as int))
    }
}

/// `r` is what decoding gives for a text that is the standard base64 text
/// of some bytes: those bytes.
pub open spec fn decodes_canonical(text: Seq<char>, r: Option<Seq<u8>>) -> bool {
    forall|b: Seq<u8>| #[trigger] base64_codes(b) == codes(text) ==> r == Some(b)
}

/// The bytes that a text stands for in standard base64, if it is valid.
pub uninterp spec fn base64_bytes(text: Seq<char>) -> Option<Seq<u8>>;

/// Relies on `aes_gcm::Aes256Gcm::generate_key` with `OsRng`: 32 random bytes.
#[verifier::external_body]
fn random_key() -> (r: [u8; 32]) {
    Aes256Gcm::generate_key(&mut OsRng).into()
}

/// Relies on `aes_gcm::Aes256Gcm::generate_nonce` with `OsRng`: 12 random bytes.
#[verifier::external_body]
fn random_nonce() -> (r: Vec<u8>)
    ensures
        r@.len() == NONCE_LEN,
{
    Aes256Gcm::generate_nonce(&mut OsRng).to_vec()
}

/// Relies on `aes_gcm::aead::Aead::encrypt` for `Aes256Gcm`, with no
/// associated data: the ciphertext followed by the 16-byte tag; refused
/// exactly when the plaintext is longer than 2^36 bytes.
#[verifier::external_body]
fn gcm_encrypt(key: &[u8; 32], nonce: &[u8], plain: &[u8]) -> (r: Option<Vec<u8>>)
    requires
        nonce@.len() == NONCE_LEN,
    ensures
        r.is_some() == gcm_seal(key@, nonce@, plain@).is_some(),
        r.is_some() == (plain@.len() <= MAX_PLAINTEXT),
        r matches Some(c) ==> gcm_seal(key@, nonce@, plain@) == Some(c@),
        r matches Some(c) ==> c@.len() == plain@.len() + TAG_LEN,
{
    let cipher = Aes256Gcm::new(key.into());
    cipher.encrypt(aes_gcm::Nonce::from_slice(nonce), plain).ok()
}

/// Relies on `aes_gcm::aead::Aead::decrypt` for `Aes256Gcm`, with no
/// associated data: the plaintext, or a refusal when the tag does not check.
#[verifier::external_body]
fn gcm_decrypt(key: &[u8; 32], nonce: &[u8], sealed: &[u8]) -> (r: Option<Vec<u8>>)
    requires
        nonce@.len() == NONCE_LEN,
    ensures
        r.is_some() == gcm_open(key@, nonce@, sealed@).is_some(),
        r matches Some(p) ==> gcm_open(key@, nonce@, sealed@) == Some(p@),
{
    let cipher = Aes256Gcm::new(key.into());
    cipher.decrypt(aes_gcm::Nonce::from_slice(nonce), sealed).ok()
}

/// Relies on `base64::Engine::encode` of the standard engine: the standard
/// alphabet, with padding.
#[verifier::external_body]
fn base64_encode(bytes: &[u8]) -> (r: String)
    ensures
        codes(r@) == base64_codes(bytes@),
{
    base64::engine::general_purpose::STANDARD.encode(bytes)
}

/// Relies on `base64::Engine::decode` of the standard engine: the bytes of
/// a valid text; the text that encoding gives decodes to the bytes encoded.
#[verifier::external_body]
fn base64_decode(text: &str) -> (r: Option<Vec<u8>>)
    ensures
        r.is_some() == base64_bytes(text@).is_some(),
        r matches Some(b) ==> base64_bytes(text@) == Some(b@),
        decodes_canonical(
            text@,
            match r {
                Some(b) => Some(b@),
                None => None,
            },
        ),
{
    base64::engine::general_purpose::STANDARD.decode(text).ok()
}

/// Relies on `String::from_utf8`: the text when the bytes are UTF-8.
#[verifier::external_body]
fn utf8_text(bytes: Vec<u8>) -> (r: Option<String>)
    ensures
        r.is_some() == valid_utf8(bytes@),
        r matches Some(s) ==> s@ == decode_utf8(bytes@),
{
    String::from_utf8(bytes).ok()
}

/// The packet that sealing `data` under `key` with `nonce` gives.
pub open spec fn sealed_packet(data: Seq<char>, key: Seq<u8>, nonce: Seq<u8>) -> Result<
    Seq<u32>,
    VaultError,
> {
    match gcm_seal(key, nonce, vstd::utf8::encode_utf8(data)) {
        Some(c) => Ok(base64_codes(nonce + c)),
        None => Err(VaultError::Encrypt),
    }
}

/// The text that opening the decoded bytes of a packet under `key` gives.
pub open spec fn opened_bytes(b: Seq<u8>, key: Seq<u8>) -> Result<Seq<char>, VaultError> {
    if b.len() < NONCE_LEN {
        Err(VaultError::TooShort)
    } else {
        match gcm_open(key, b.subrange(0, NONCE_LEN as int), b.subrange(NONCE_LEN as int, b.len() as int)) {
            None => Err(VaultError::Decrypt),
            Some(p) => if valid_utf8(p) {
                Ok(decode_utf8(p))
            } else {
                Err(VaultError::Utf8)
            },
        }
    }
}

/// The text that opening `packet` under `key` gives.
pub open spec fn opened_packet(packet: Seq<char>, key: Seq<u8>) -> Result<Seq<char>, VaultError> {
    match base64_bytes(packet) {
        None => Err(VaultError::Decode),
        Some(b) => opened_bytes(b, key),
    }
}

/// The length of a session key, in bytes.
pub const KEY_LEN: usize = 32;

/// A session key read back from storage: usable only when it is exactly 32
/// bytes long.
pub fn session_key_from_bytes(bytes: &Vec<u8>) -> (r: Option<[u8; 32]>)
    ensures
        r.is_some() == (bytes@.len() == KEY_LEN),
        r matches Some(k) ==> k@ == bytes@,
{
    if bytes.len() != KEY_LEN {
        return None;
    }
    let mut key = [0u8; 32];
    let mut i: usize = 0;
    while i < KEY_LEN
        invariant
            i <= KEY_LEN,
            bytes@.len() == KEY_LEN,
            key@.len() == KEY_LEN,
            forall|k: int| 0 <= k < i ==> #[trigger] key@[k] == bytes@[k],
        decreases KEY_LEN - i,
    {
        key[i] = bytes[i];
        i += 1;
    }
    assert(key@ =~= bytes@);
    Some(key)
}

/// Seals and opens text under a session key.
pub struct MemoryVault;

impl MemoryVault {
    /// A fresh random 256-bit key.
    pub fn generate_key() -> (r: [u8; 32]) {
        random_key()
    }

    /// Seals `data` under `key` with the given 12-byte nonce: base64 of the
    /// nonce followed by the ciphertext.
    pub fn lock_with_nonce(data: &str, key: &[u8; 32], nonce: &Vec<u8>) -> (r: Result<String, VaultError>)
        requires
            nonce@.len() == NONCE_LEN,
        ensures
            r is Ok <==> data.spec_bytes().len() <= MAX_PLAINTEXT,
            r matches Ok(s) ==> sealed_packet(data@, key@, nonce@) == Ok::<Seq<u32>, VaultError>(codes(s@)),
            r matches Err(e) ==> sealed_packet(data@, key@, nonce@) == Err::<Seq<u32>, VaultError>(e),
    {
        let bytes = data.as_bytes();
        match gcm_encrypt(key, nonce.as_slice(), bytes) {
            None => Err(VaultError::Encrypt),
            Some(c) => {
                let mut packet: Vec<u8> = Vec::new();
                let mut i: usize = 0;
                while i < nonce.len()
                    invariant
                        i <= nonce@.len(),
                        packet@ == nonce@.subrange(0, i as int),
                    decreases nonce.len() - i,
                {
                    packet.push(nonce[i]);
                    i += 1;
                    assert(packet@ =~= nonce@.subrange(0, i as int));
                }
                let mut j: usize = 0;
                while j < c.len()
                    invariant
                        j <= c@.len(),
                        packet@ == nonce@ + c@.subrange(0, j as int),
                    decreases c.len() - j,
                {
                    packet.push(c[j]);
                    j += 1;
                    assert(packet@ =~= nonce@ + c@.subrange(0, j as int));
                }
                assert(c@.subrange(0, c@.len() as int) =~= c@);
                assert(nonce@.subrange(0, nonce@.len() as int) =~= nonce@);
                Ok(base64_encode(packet.as_slice()))
            },
        }
    }

    /// Seals `data` under `key` with a fresh random nonce.
    pub fn lock(data: &str, key: &[u8; 32]) -> (r: Result<String, VaultError>)
        ensures
            r is Ok <==> data.spec_bytes().len() <= MAX_PLAINTEXT,
            exists|nonce: Seq<u8>|
                nonce.len() == NONCE_LEN && #[trigger] sealed_packet(data@, key@, nonce) == match r {
                    Ok(s) => Ok::<Seq<u32>, VaultError>(codes(s@)),
                    Err(e) => Err::<Seq<u32>, VaultError>(e),
                },
    {
        let nonce = random_nonce();
        let r = MemoryVault::lock_with_nonce(data, key, &nonce);
        assert(sealed_packet(data@, key@, nonce@) == match r {
            Ok(s) => Ok::<Seq<u32>, VaultError>(codes(s@)),
            Err(e) => Err::<Seq<u32>, VaultError>(e),
        });
        r
    }

    /// Opens the decoded bytes of a packet: splits off the nonce, decrypts
    /// the rest under `key` and reads it as UTF-8.
    pub fn open_bytes(packet: &Vec<u8>, key: &[u8; 32]) -> (r: Result<String, VaultError>)
        ensures
            r matches Ok(s) ==> opened_bytes(packet@, key@) == Ok::<Seq<char>, VaultError>(s@),
            r matches Err(e) ==> opened_bytes(packet@, key@) == Err::<Seq<char>, VaultError>(e),
    {
        if packet.len() < NONCE_LEN {
            return Err(VaultError::TooShort);
        }
        let (nonce, sealed) = packet.as_slice().split_at(NONCE_LEN);
        match gcm_decrypt(key, nonce, sealed) {
            None => Err(VaultError::Decrypt),
            Some(p) => match utf8_text(p) {
                Some(s) => Ok(s),
                None => Err(VaultError::Utf8),
            },
        }
    }

    /// Opens a packet made by `lock`: base64-decodes it, then opens the bytes.
    pub fn open(enc_packet: &str, key: &[u8; 32]) -> (r: Result<String, VaultError>)
        ensures
            r matches Ok(s) ==> opened_packet(enc_packet@, key@) == Ok::<Seq<char>, VaultError>(s@),
            r matches Err(e) ==> opened_packet(enc_packet@, key@) == Err::<Seq<char>, VaultError>(e),
    {
        match base64_decode(enc_packet) {
            Some(b) => MemoryVault::open_bytes(&b, key),
            None => Err(VaultError::Decode),
        }
    }
}

} // verus!
