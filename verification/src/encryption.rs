//! Encryption of stored credentials (such as a user's GitLab token) with a
//! key kept in the data directory.
//!
//! A credential is sealed with AES-256-GCM under a fresh 12-byte nonce and
//! stored as base64 of the version byte 1, the nonce and the sealed bytes.
//! Text that does not start with version 1 is read as a credential from the
//! earlier scheme (magic-crypt with the base64 of the key).
use vstd::prelude::*;
use vstd::string::*;
use vstd::utf8::*;

use aes_gcm::aead::{Aead, KeyInit};
use aes_gcm::{Aes256Gcm, Nonce};
use base64::Engine;
use magic_crypt::MagicCryptTrait;

verus! {

// ---------------------------------------------------------------------------
// Trusted calls
// ---------------------------------------------------------------------------

/// The standard base64 text of some bytes (base64 `STANDARD.encode`).
pub uninterp spec fn base64_text(bytes: Seq<u8>) -> Seq<char>;

/// The bytes that a text decodes to under standard base64, if it is valid
/// (base64 `STANDARD.decode`).
pub uninterp spec fn base64_bytes(text: Seq<char>) -> Option<Seq<u8>>;

/// What AES-256-GCM sealing gives for a key, a nonce and a plaintext
/// (ciphertext and tag, no associated data).
pub uninterp spec fn aes_gcm_sealed(key: Seq<u8>, nonce: Seq<u8>, plaintext: Seq<u8>) -> Seq<u8>;

/// What AES-256-GCM opening gives for a key, a nonce and sealed bytes: the
/// plaintext, or nothing when the bytes do not authenticate.
pub uninterp spec fn aes_gcm_opened(key: Seq<u8>, nonce: Seq<u8>, sealed: Seq<u8>) -> Option<Seq<u8>>;

/// What the earlier scheme (magic-crypt, 256 bits, keyed by the text
/// `key_text`) decrypts a base64 text to, if anything.
pub uninterp spec fn legacy_decryption(key_text: Seq<char>, text: Seq<char>) -> Option<Seq<char>>;

/// base64 `STANDARD.encode`. Its result is `base64_text` of the bytes, and,
/// as base64 promises, decoding it gives the bytes back.
#[verifier::external_body]
fn base64_encode(bytes: &[u8]) -> (r: String)
    requires
        bytes@.len() <= usize::MAX / 2,
    ensures
        r@ == base64_text(bytes@),
        base64_bytes(r@) == Some(bytes@),
{
    base64::engine::general_purpose::STANDARD.encode(bytes)
}

/// base64 `STANDARD.decode`: the bytes when the text is valid base64.
#[verifier::external_body]
fn base64_decode(text: &str) -> (r: Option<Vec<u8>>)
    requires
        text.spec_bytes().len() <= usize::MAX / 2,
    ensures
        match r {
            Some(b) => base64_bytes(text@) == Some(b@),
            None => base64_bytes(text@) is None,
        },
{
    base64::engine::general_purpose::STANDARD.decode(text).ok()
}

/// AES-256-GCM encryption (`Aes256Gcm::new_from_slice`, then `encrypt`). Its
/// result is `aes_gcm_sealed` of the arguments: the ciphertext, as long as
/// the plaintext, followed by the 16-byte tag; as for any AEAD, opening it
/// with the same key and nonce gives the plaintext back.
#[verifier::external_body]
fn aes_gcm_seal(key: &[u8], nonce: &[u8; 12], plaintext: &[u8]) -> (r: Vec<u8>)
    requires
        key@.len() == 32,
        plaintext@.len() <= 0x10_0000_0000,
    ensures
        r@ == aes_gcm_sealed(key@, nonce@, plaintext@),
        r@.len() == plaintext@.len() + 16,
        aes_gcm_opened(key@, nonce@, r@) == Some(plaintext@),
{
    let cipher = Aes256Gcm::new_from_slice(key).expect("a 32-byte key");
    cipher.encrypt(Nonce::from_slice(nonce), plaintext).expect("a plaintext within the limit")
}

/// AES-256-GCM decryption (`Aes256Gcm::new_from_slice`, then `decrypt`):
/// nothing for a key that is not 32 bytes long, else `aes_gcm_opened`.
#[verifier::external_body]
fn aes_gcm_open(key: &[u8], nonce: &[u8], sealed: &[u8]) -> (r: Option<Vec<u8>>)
    requires
        nonce@.len() == 12,
    ensures
        key@.len() != 32 ==> r is None,
        key@.len() == 32 ==> match r {
            Some(p) => aes_gcm_opened(key@, nonce@, sealed@) == Some(p@),
            None => aes_gcm_opened(key@, nonce@, sealed@) is None,
        },
{
    let cipher = Aes256Gcm::new_from_slice(key).ok()?;
    cipher.decrypt(Nonce::from_slice(nonce), sealed).ok()
}

/// Decryption under the earlier scheme (`MagicCrypt256::new` with the key
/// text, then `decrypt_base64_to_string`); its result is `legacy_decryption`.
#[verifier::external_body]
fn legacy_decrypt(key_text: &str, text: &str) -> (r: Option<String>)
    ensures
        match r {
            Some(s) => legacy_decryption(key_text@, text@) == Some(s@),
            None => legacy_decryption(key_text@, text@) is None,
        },
{
    magic_crypt::MagicCrypt256::new(key_text, None::<String>).decrypt_base64_to_string(text).ok()
}

/// std `String::from_utf8`: the string when the bytes are valid UTF-8.
#[verifier::external_body]
fn string_from_utf8(bytes: Vec<u8>) -> (r: Option<String>)
    ensures
        r is Some <==> valid_utf8(bytes@),
        r matches Some(s) ==> s@ == decode_utf8(bytes@),
{
    String::from_utf8(bytes).ok()
}

/// What base64's `URL_SAFE_NO_PAD` engine encodes some bytes to.
pub uninterp spec fn base64_url_text(bytes: Seq<u8>) -> Seq<char>;

/// base64 `URL_SAFE_NO_PAD.encode`; its result is `base64_url_text` of the
/// bytes.
#[verifier::external_body]
fn base64_url_encode(bytes: &[u8]) -> (r: String)
    requires
        bytes@.len() <= usize::MAX / 2,
    ensures
        r@ == base64_url_text(bytes@),
{
    base64::engine::general_purpose::URL_SAFE_NO_PAD.encode(bytes)
}

/// A random nonce (`rand::random`); nothing is known of its bytes.
#[verifier::external_body]
fn random_nonce() -> (r: [u8; 12]) {
    rand::random()
}

/// A random byte (`rand::random`); nothing is known of it.
#[verifier::external_body]
fn random_byte() -> (r: u8) {
    rand::random()
}

// ---------------------------------------------------------------------------
// The scheme
// ---------------------------------------------------------------------------

/// The stored bytes of a sealed credential: version 1, nonce, sealed bytes.
pub open spec fn frame(nonce: Seq<u8>, sealed: Seq<u8>) -> Seq<u8> {
    seq![1u8] + nonce + sealed
}

/// What a stored credential decrypts to under `key`: for version 1, the
/// sealed bytes opened with the stored nonce, when they authenticate and are
/// UTF-8; for text of any other version, the earlier scheme's answer.
pub open spec fn decryption_of(key: Seq<u8>, text: Seq<char>) -> Option<Seq<char>> {
    match base64_bytes(text) {
        None => None,
        Some(data) => if data.len() == 0 {
            None
        } else if data[0] == 1u8 {
            if data.len() < 13 || key.len() != 32 {
                None
            } else {
                match aes_gcm_opened(key, data.subrange(1, 13), data.subrange(13, data.len() as int)) {
                    Some(p) => if valid_utf8(p) {
                        Some(decode_utf8(p))
                    } else {
                        None
                    },
                    None => None,
                }
            }
        } else {
            legacy_decryption(base64_text(key), text)
        },
    }
}

/// A text that `encrypt` takes: its UTF-8 bytes fit what AES-GCM seals in
/// one message and what the base64 text of the result can hold.
pub open spec fn encryptable(text: Seq<char>) -> bool {
    &&& encode_utf8(text).len() <= 0x10_0000_0000
    &&& encode_utf8(text).len() <= usize::MAX / 4
}

/// A new invite token: 32 random bytes in URL-safe base64 without padding.
pub fn generate_token() -> (r: String)
    ensures
        exists|bytes: Seq<u8>| bytes.len() == 32 && r@ == base64_url_text(bytes),
{
    let bytes = generate_key();
    base64_url_encode(bytes.as_slice())
}

/// Encrypts and decrypts credentials with the server's key.
pub struct CredentialEncryption {
    key: Vec<u8>,
}

/// 32 random bytes.
pub fn generate_key() -> (r: Vec<u8>)
    ensures
        r@.len() == 32,
{
    let mut r: Vec<u8> = Vec::new();
    while r.len() < 32
        invariant
            r@.len() <= 32,
        decreases 32 - r@.len(),
    {
        r.push(random_byte());
    }
    r
}

impl CredentialEncryption {
    /// The key's bytes.
    pub closed spec fn key_bytes(&self) -> Seq<u8> {
        self.key@
    }

    /// The encryption with a given key.
    pub fn with_key(key: Vec<u8>) -> (r: CredentialEncryption)
        ensures
            r.key_bytes() == key@,
    {
        CredentialEncryption { key }
    }

    /// The encryption set up from the key file. `stored` is `None` when the
    /// file does not exist, `Some(None)` when it could not be read, and the
    /// file's text otherwise. Without a file a fresh key is made and its
    /// base64 text returned to be written; an unreadable file or text that is
    /// no base64 gives a fresh key that is not written.
    pub fn from_stored(stored: Option<Option<&str>>) -> (r: (CredentialEncryption, Option<String>))
        requires
            stored matches Some(Some(t)) ==> t.spec_bytes().len() <= usize::MAX / 2,
        ensures
            stored is None ==> (r.1 matches Some(w) && base64_bytes(w@) == Some(r.0.key_bytes())
                && r.0.key_bytes().len() == 32),
            stored is Some ==> r.1 is None,
            (stored matches Some(Some(t)) && base64_bytes(t@) is Some) ==> Some(r.0.key_bytes())
                == base64_bytes(stored->0->0@),
            (stored matches Some(Some(t)) && base64_bytes(t@) is None) ==> r.0.key_bytes().len() == 32,
            stored == Some(None::<&str>) ==> r.0.key_bytes().len() == 32,
    {
        match stored {
            None => {
                let key = generate_key();
                let text = base64_encode(key.as_slice());
                (CredentialEncryption { key }, Some(text))
            },
            Some(read) => {
                let key = match read {
                    Some(t) => match base64_decode(t) {
                        Some(k) => k,
                        None => generate_key(),
                    },
                    None => generate_key(),
                };
                (CredentialEncryption { key }, None)
            },
        }
    }

    /// Encrypts a credential under a fresh random nonce. Whatever the nonce,
    /// decrypting the result gives the credential back, and the result is
    /// the base64 text of a version byte 1, the 12-byte nonce, and the
    /// ciphertext with its 16-byte tag.
    pub fn encrypt(&self, plaintext: &str) -> (r: String)
        requires
            self.key_bytes().len() == 32,
            encryptable(plaintext@),
        ensures
            decryption_of(self.key_bytes(), r@) == Some(plaintext@),
            base64_bytes(r@) matches Some(b) && b.len() == 1 + 12 + encode_utf8(plaintext@).len() + 16
                && b[0] == 1u8,
            exists|nonce: Seq<u8>|
                nonce.len() == 12 && r@ == base64_text(
                    frame(nonce, aes_gcm_sealed(self.key_bytes(), nonce, encode_utf8(plaintext@))),
                ),
    {
        let nonce = random_nonce();
        let bytes = plaintext.as_bytes();
        let sealed = aes_gcm_seal(self.key.as_slice(), &nonce, bytes);
        let mut data: Vec<u8> = Vec::new();
        data.push(1u8);
        let mut i: usize = 0;
        while i < 12
            invariant
                i <= 12,
                data@ == seq![1u8] + nonce@.take(i as int),
            decreases 12 - i,
        {
            data.push(nonce[i]);
            proof {
                assert(nonce@.take(i + 1) =~= nonce@.take(i as int).push(nonce@[i as int]));
            }
            i += 1;
        }
        let ghost sealed_bytes = sealed@;
        let mut sealed = sealed;
        data.append(&mut sealed);
        proof {
            assert(nonce@.take(12) =~= nonce@);
            assert(data@ =~= frame(nonce@, sealed_bytes));
            assert(data@.subrange(1, 13) =~= nonce@);
            assert(data@.subrange(13, data@.len() as int) =~= sealed_bytes);
            encode_utf8_valid_utf8(plaintext@);
            encode_utf8_decode_utf8(plaintext@);
        }
        base64_encode(data.as_slice())
    }

    /// Decrypts a stored credential (see `decryption_of`).
    pub fn decrypt(&self, ciphertext: &str) -> (r: Option<String>)
        requires
            ciphertext.spec_bytes().len() <= usize::MAX / 2,
            self.key_bytes().len() <= usize::MAX / 2,
        ensures
            match r {
                Some(s) => decryption_of(self.key_bytes(), ciphertext@) == Some(s@),
                None => decryption_of(self.key_bytes(), ciphertext@) is None,
            },
    {
        let data = match base64_decode(ciphertext) {
            Some(d) => d,
            None => {
                return None;
            },
        };
        if data.len() == 0 {
            return None;
        }
        if data[0] == 1u8 {
            if data.len() < 13 {
                return None;
            }
            let nonce = slice_bytes(data.as_slice(), 1, 13);
            let body = slice_bytes(data.as_slice(), 13, data.len());
            match aes_gcm_open(self.key.as_slice(), nonce.as_slice(), body.as_slice()) {
                Some(p) => string_from_utf8(p),
                None => None,
            }
        } else {
            let key_text = base64_encode(self.key.as_slice());
            legacy_decrypt(key_text.as_str(), ciphertext)
        }
    }
}

/// The bytes of `data` from `lo` up to `hi`.
fn slice_bytes(data: &[u8], lo: usize, hi: usize) -> (r: Vec<u8>)
    requires
        lo <= hi <= data@.len(),
    ensures
        r@ == data@.subrange(lo as int, hi as int),
{
    let mut r: Vec<u8> = Vec::new();
    let mut i: usize = lo;
    while i < hi
        invariant
            lo <= i <= hi <= data@.len(),
            r@ == data@.subrange(lo as int, i as int),
        decreases hi - i,
    {
        r.push(data[i]);
        proof {
            assert(data@.subrange(lo as int, i + 1) =~= data@.subrange(lo as int, i as int).push(data@[i as int]));
        }
        i += 1;
    }
    r
}

} // verus!
