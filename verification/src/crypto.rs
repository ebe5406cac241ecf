//! Keys at rest: the master key, the encryption of stored secrets under it, and
//! the digest by which tokens are looked up.

use chacha20poly1305::aead::{Aead, KeyInit, OsRng};
use chacha20poly1305::{AeadCore, ChaCha20Poly1305, Key, Nonce};
use rand::RngCore;
use sha2::{Digest, Sha256};
use vstd::prelude::*;
use vstd::slice::slice_subrange;
use vstd::string::*;

use crate::error::{Error, ErrorView};
use crate::text::{join3, owned, trim, trimmed};

verus! {

/// The value of one hexadecimal digit, in either case.
pub open spec fn hex_value(c: char) -> Option<u8> {
    if '0' <= c && c <= '9' {
        Some((c as u32 - 48) as u8)
    } else if 'a' <= c && c <= 'f' {
        Some((c as u32 - 87) as u8)
    } else if 'A' <= c && c <= 'F' {
        Some((c as u32 - 55) as u8)
    } else {
        None
    }
}

/// The lower-case hexadecimal digit of a value below sixteen.
pub open spec fn hex_digit(v: u8) -> char {
    if v < 10 {
        (48 + v) as char
    } else {
        (87 + v) as char
    }
}

/// Whether a text is a whole number of pairs of hexadecimal digits.
pub open spec fn is_hex(s: Seq<char>) -> bool {
    &&& s.len() % 2 == 0
    &&& forall|i: int| 0 <= i < s.len() ==> hex_value(#[trigger] s[i]) is Some
}

/// The bytes that pairs of hexadecimal digits stand for, high digit first.
pub open spec fn hex_bytes(s: Seq<char>) -> Seq<u8> {
    Seq::new(
        s.len() / 2,
        |i: int| (16 * hex_value(s[2 * i])->0 + hex_value(s[2 * i + 1])->0) as u8,
    )
}

/// Two lower-case hexadecimal digits for each byte, high digit first.
pub open spec fn hex_text(b: Seq<u8>) -> Seq<char> {
    Seq::new(
        2 * b.len(),
        |i: int| if i % 2 == 0 { hex_digit(b[i / 2] / 16) } else { hex_digit(b[i / 2] % 16) },
    )
}

/// The text of the error that `hex::decode` gives for a text that is not
/// hexadecimal.
pub uninterp spec fn hex_error_text(s: Seq<char>) -> Seq<char>;

/// `hex::decode`: the bytes of pairs of hexadecimal digits in either case, or
/// the text of the error where the input is not a whole number of such pairs.
#[verifier::external_body]
fn hex_decode(s: &str) -> (r: Result<Vec<u8>, String>)
    ensures
        r is Ok <==> is_hex(s@),
        r matches Ok(b) ==> b@ == hex_bytes(s@),
        r matches Err(m) ==> m@ == hex_error_text(s@),
{
    hex::decode(s).map_err(|e| e.to_string())
}

/// `hex::encode`: two lower-case digits for each byte. The result has to fit in a
/// string.
#[verifier::external_body]
fn hex_encode(bytes: &[u8]) -> (r: String)
    requires
        2 * bytes@.len() <= isize::MAX,
    ensures
        r@ == hex_text(bytes@),
{
    hex::encode(bytes)
}

/// `OsRng::fill_bytes` of rand on a buffer of thirty-two bytes. Nothing is
/// stated of what comes out.
#[verifier::external_body]
fn random_key() -> (r: [u8; 32])
{
    let mut buf = [0u8; 32];
    OsRng.fill_bytes(&mut buf);
    buf
}

/// `ChaCha20Poly1305::generate_nonce` over the operating system's generator.
/// Nothing is stated of what comes out.
#[verifier::external_body]
fn random_nonce() -> (r: [u8; 12])
{
    ChaCha20Poly1305::generate_nonce(&mut OsRng).into()
}

/// What `ChaCha20Poly1305` makes of a plaintext under a key and a nonce:
/// ciphertext and tag.
pub uninterp spec fn sealed(key: Seq<u8>, nonce: Seq<u8>, plaintext: Seq<u8>) -> Seq<u8>;

/// What `ChaCha20Poly1305` opens a ciphertext to under a key and a nonce;
/// nothing where the tag does not fit.
pub uninterp spec fn opened(key: Seq<u8>, nonce: Seq<u8>, ciphertext: Seq<u8>) -> Option<Seq<u8>>;

/// The number of bytes from which on the cipher refuses a message.
pub const CIPHER_LIMIT: u64 = 274_877_906_880;

/// Lengths just below [`CIPHER_LIMIT`] at which the block counter runs over.
pub open spec fn counter_runs_over(len: int) -> bool {
    CIPHER_LIMIT - 64 < len < CIPHER_LIMIT
}

/// `Aead::encrypt` of `ChaCha20Poly1305`: the ciphertext with its tag of sixteen
/// bytes, which `Aead::decrypt` opens again to the plaintext. A message that
/// reaches the cipher's limit is refused. The result has to fit in a vector.
#[verifier::external_body]
fn seal(key: &[u8; 32], nonce: &[u8; 12], plaintext: &[u8]) -> (r: Result<Vec<u8>, String>)
    requires
        plaintext@.len() + 16 <= isize::MAX,
        !counter_runs_over(plaintext@.len() as int),
    ensures
        r is Ok <==> plaintext@.len() < CIPHER_LIMIT,
        r matches Ok(c) ==> c@ == sealed(key@, nonce@, plaintext@) && c@.len() == plaintext@.len()
            + 16 && opened(key@, nonce@, c@) == Some(plaintext@),
        r matches Err(m) ==> m@ == "aead::Error"@,
{
    let cipher = ChaCha20Poly1305::new(Key::from_slice(key));
    cipher.encrypt(Nonce::from_slice(nonce), plaintext).map_err(|e| e.to_string())
}

/// `Aead::decrypt` of `ChaCha20Poly1305`: the plaintext, or an error where the
/// tag does not fit.
#[verifier::external_body]
fn open(key: &[u8; 32], nonce: &[u8], ciphertext: &[u8]) -> (r: Result<Vec<u8>, String>)
    requires
        nonce@.len() == 12,
        !counter_runs_over(ciphertext@.len() - 16),
    ensures
        r is Ok <==> opened(key@, nonce@, ciphertext@) is Some,
        r matches Ok(p) ==> opened(key@, nonce@, ciphertext@) == Some(p@),
        r matches Err(m) ==> m@ == "aead::Error"@,
{
    let cipher = ChaCha20Poly1305::new(Key::from_slice(key));
    cipher.decrypt(Nonce::from_slice(nonce), ciphertext).map_err(|e| e.to_string())
}

/// The SHA-256 digest of the bytes.
pub uninterp spec fn sha256(bytes: Seq<u8>) -> Seq<u8>;

/// `Sha256` of sha2, over the whole input at once: a digest of thirty-two bytes.
#[verifier::external_body]
fn sha256_digest(bytes: &[u8]) -> (r: Vec<u8>)
    ensures
        r@ == sha256(bytes@),
        r@.len() == 32,
{
    Sha256::digest(bytes).to_vec()
}

/// What a stored blob opens to: its first twelve bytes are the nonce, the rest
/// is the ciphertext.
pub open spec fn decrypted(key: Seq<u8>, blob: Seq<u8>) -> Option<Seq<u8>> {
    if blob.len() < 12 {
        None
    } else {
        opened(key, blob.take(12), blob.skip(12))
    }
}

/// Whether the cipher can be asked to open the blob.
pub open spec fn can_open(blob: Seq<u8>) -> bool {
    !counter_runs_over(blob.len() - 28)
}

/// Says whether the cipher can be asked to open the blob.
pub fn is_openable(blob: &[u8]) -> (r: bool)
    ensures
        r == can_open(blob@),
{
    let n: u64 = blob.len() as u64;
    !(CIPHER_LIMIT - 36 < n && n < CIPHER_LIMIT + 28)
}

/// The key, as bytes, that a text gives, or the error.
pub open spec fn key_of_hex(s: Seq<char>) -> Result<Seq<u8>, ErrorView> {
    if !is_hex(trimmed(s)) {
        Err(ErrorView::Crypto(hex_error_text(trimmed(s))))
    } else if trimmed(s).len() != 64 {
        Err(ErrorView::Crypto("master key must be 32 bytes (64 hex chars)"@))
    } else {
        Ok(hex_bytes(trimmed(s)))
    }
}

/// The key under which secrets are stored.
pub struct MasterKey {
    bytes: [u8; 32],
}

impl View for MasterKey {
    type V = Seq<u8>;

    closed spec fn view(&self) -> Seq<u8> {
        self.bytes@
    }
}

impl Clone for MasterKey {
    fn clone(&self) -> (r: Self)
        ensures
            r@ == self@,
    {
        MasterKey { bytes: self.bytes }
    }
}

impl MasterKey {
    /// Reads a key from sixty-four hexadecimal digits, with white space around
    /// them allowed.
    pub fn from_hex(s: &str) -> (r: Result<Self, Error>)
        ensures
            match (r, key_of_hex(s@)) {
                (Ok(k), Ok(b)) => k@ == b,
                (Err(e), Err(v)) => e@ == v,
                _ => false,
            },
    {
        let decoded: Vec<u8> = match hex_decode(trim(s)) {
            Ok(b) => b,
            Err(m) => {
                return Err(Error::Crypto(m));
            },
        };
        if decoded.len() != 32 {
            return Err(Error::Crypto(owned("master key must be 32 bytes (64 hex chars)")));
        }
        let mut bytes: [u8; 32] = [0u8; 32];
        let mut i: usize = 0;
        while i < 32
            invariant
                i <= 32,
                decoded@.len() == 32,
                forall|j: int| 0 <= j < i ==> bytes@[j] == decoded@[j],
            decreases 32 - i,
        {
            bytes[i] = decoded[i];
            i = i + 1;
        }
        assert(bytes@ =~= decoded@);
        Ok(MasterKey { bytes })
    }

    /// Reads a key from the value of the environment variable `var`, which is
    /// `None` where the variable is not set.
    pub fn from_env(var: &str, value: Option<&str>) -> (r: Result<Self, Error>)
        ensures
            value matches Some(raw) ==> match (r, key_of_hex(raw@)) {
                (Ok(k), Ok(b)) => k@ == b,
                (Err(e), Err(v)) => e@ == v,
                _ => false,
            },
            value is None ==> (r matches Err(e) && e@ == ErrorView::Crypto(
                "env "@ + var@ + " not set"@,
            )),
    {
        match value {
            Some(raw) => Self::from_hex(raw),
            None => Err(Error::Crypto(join3("env ", var, " not set"))),
        }
    }

    /// A fresh random key, as sixty-four hexadecimal digits.
    pub fn generate_hex() -> (r: String)
        ensures
            r@.len() == 64,
            exists|b: Seq<u8>| #[trigger] b.len() == 32 && r@ == hex_text(b),
            key_of_hex(r@) is Ok,
    {
        let bytes = random_key();
        proof {
            law_hex_key_round_trip(bytes@);
        }
        hex_encode(bytes.as_slice())
    }

    /// Encrypts under a fresh random nonce, which stands in front of the
    /// ciphertext.
    pub fn encrypt(&self, plaintext: &[u8]) -> (r: Result<Vec<u8>, Error>)
        requires
            plaintext@.len() + 28 <= isize::MAX,
            !counter_runs_over(plaintext@.len() as int),
        ensures
            r is Ok <==> plaintext@.len() < CIPHER_LIMIT,
            r matches Ok(blob) ==> {
                &&& blob@.len() == plaintext@.len() + 28
                &&& blob@.skip(12) == sealed(self@, blob@.take(12), plaintext@)
                &&& decrypted(self@, blob@) == Some(plaintext@)
            },
            r matches Err(e) ==> e@ == ErrorView::Crypto("aead::Error"@),
    {
        let nonce = random_nonce();
        let r = self.encrypt_with_nonce(&nonce, plaintext);
        proof {
            if r is Ok {
                assert(r->Ok_0@.take(12) =~= nonce@);
                assert(r->Ok_0@.skip(12) =~= sealed(self@, nonce@, plaintext@));
            }
        }
        r
    }

    /// Encrypts under the given nonce, which stands in front of the ciphertext.
    pub fn encrypt_with_nonce(&self, nonce: &[u8; 12], plaintext: &[u8]) -> (r: Result<
        Vec<u8>,
        Error,
    >)
        requires
            plaintext@.len() + 28 <= isize::MAX,
            !counter_runs_over(plaintext@.len() as int),
        ensures
            r is Ok <==> plaintext@.len() < CIPHER_LIMIT,
            r matches Ok(blob) ==> {
                &&& blob@ == nonce@ + sealed(self@, nonce@, plaintext@)
                &&& blob@.len() == plaintext@.len() + 28
                &&& decrypted(self@, blob@) == Some(plaintext@)
            },
            r matches Err(e) ==> e@ == ErrorView::Crypto("aead::Error"@),
    {
        match seal(&self.bytes, nonce, plaintext) {
            Ok(ciphertext) => {
                let mut out: Vec<u8> = Vec::new();
                out.extend_from_slice(nonce.as_slice());
                out.extend_from_slice(ciphertext.as_slice());
                assert(out@ =~= nonce@ + ciphertext@);
                assert(out@.take(12) =~= nonce@);
                assert(out@.skip(12) =~= ciphertext@);
                Ok(out)
            },
            Err(m) => Err(Error::Crypto(m)),
        }
    }

    /// Decrypts a blob that [`MasterKey::encrypt`] made.
    pub fn decrypt(&self, blob: &[u8]) -> (r: Result<Vec<u8>, Error>)
        requires
            can_open(blob@),
        ensures
            r is Ok <==> decrypted(self@, blob@) is Some,
            r matches Ok(p) ==> decrypted(self@, blob@) == Some(p@),
            r matches Err(e) ==> e@ == decrypt_error(blob@),
    {
        if blob.len() < 12 {
            return Err(Error::Crypto(owned("blob too short")));
        }
        let nonce = slice_subrange(blob, 0, 12);
        let ciphertext = slice_subrange(blob, 12, blob.len());
        assert(nonce@ =~= blob@.take(12));
        assert(ciphertext@ =~= blob@.skip(12));
        match open(&self.bytes, nonce, ciphertext) {
            Ok(p) => Ok(p),
            Err(m) => Err(Error::Crypto(m)),
        }
    }
}

/// The error for a blob that does not open.
pub open spec fn decrypt_error(blob: Seq<u8>) -> ErrorView {
    if blob.len() < 12 {
        ErrorView::Crypto("blob too short"@)
    } else {
        ErrorView::Crypto("aead::Error"@)
    }
}

/// The SHA-256 digest of a text's UTF-8 bytes, as sixty-four lower-case
/// hexadecimal digits.
pub fn sha256_hex(input: &str) -> (r: String)
    ensures
        r@ == hex_text(sha256(input.spec_bytes())),
        r@.len() == 64,
{
    let digest = sha256_digest(input.as_bytes());
    hex_encode(digest.as_slice())
}

/// A key written in hexadecimal reads back as the same key.
pub proof fn law_hex_key_round_trip(key: Seq<u8>)
    requires
        key.len() == 32,
    ensures
        key_of_hex(hex_text(key)) == Ok::<Seq<u8>, ErrorView>(key),
{
    let t = hex_text(key);
    assert forall|i: int| 0 <= i < t.len() implies hex_value(#[trigger] t[i]) is Some
        && !crate::text::is_white_space(t[i]) by {
        lemma_hex_digit(key[i / 2]);
    }
    assert(trimmed(t) == t) by {
        assert(!crate::text::is_white_space(t[0]));
        assert(!crate::text::is_white_space(t.last()));
    }
    assert forall|i: int| 0 <= i < 32 implies #[trigger] hex_bytes(t)[i] == key[i] by {
        lemma_hex_digit(key[i]);
        assert((2 * i) / 2 == i && (2 * i) % 2 == 0);
        assert((2 * i + 1) / 2 == i && (2 * i + 1) % 2 == 1);
    }
    assert(hex_bytes(t) =~= key);
}

proof fn lemma_hex_digit(b: u8)
    ensures
        hex_value(hex_digit(b / 16)) == Some((b / 16) as u8),
        hex_value(hex_digit(b % 16)) == Some((b % 16) as u8),
        !crate::text::is_white_space(hex_digit(b / 16)),
        !crate::text::is_white_space(hex_digit(b % 16)),
        16 * (b / 16) + b % 16 == b,
{
}

/// A stored blob is a nonce of twelve bytes and a ciphertext: it opens to what the
/// ciphertext opens to under that nonce and the key. A shorter one opens to nothing.
pub proof fn law_blob_is_nonce_and_ciphertext(
    key: Seq<u8>,
    nonce: Seq<u8>,
    ciphertext: Seq<u8>,
    short: Seq<u8>,
)
    requires
        nonce.len() == 12,
        short.len() < 12,
    ensures
        decrypted(key, nonce + ciphertext) == opened(key, nonce, ciphertext),
        decrypted(key, short) is None,
{
    assert((nonce + ciphertext).take(12) =~= nonce);
    assert((nonce + ciphertext).skip(12) =~= ciphertext);
}

/// A blob that does not open is told as too short where it has no whole nonce, and as
/// unauthentic otherwise.
pub proof fn law_unopened_blobs_are_told(blob: Seq<u8>)
    ensures
        blob.len() < 12 ==> decrypt_error(blob) == ErrorView::Crypto("blob too short"@),
        blob.len() >= 12 ==> decrypt_error(blob) == ErrorView::Crypto("aead::Error"@),
{
}

/// A text gives a key exactly where it is sixty-four hexadecimal digits, with white space
/// around them allowed; the key then has thirty-two bytes, each from its two digits.
pub proof fn law_key_is_its_digits(s: Seq<char>, i: int)
    requires
        0 <= i < 32,
    ensures
        key_of_hex(s) is Ok <==> is_hex(trimmed(s)) && trimmed(s).len() == 64,
        key_of_hex(s) matches Ok(key) ==> {
            &&& key.len() == 32
            &&& hex_value(trimmed(s)[2 * i]) is Some
            &&& hex_value(trimmed(s)[2 * i + 1]) is Some
            &&& key[i] == 16 * hex_value(trimmed(s)[2 * i])->0 + hex_value(
                trimmed(s)[2 * i + 1],
            )->0
        },
        !is_hex(trimmed(s)) ==> key_of_hex(s) == Err::<Seq<u8>, ErrorView>(
            ErrorView::Crypto(hex_error_text(trimmed(s))),
        ),
        is_hex(trimmed(s)) && trimmed(s).len() != 64 ==> key_of_hex(s) == Err::<
            Seq<u8>,
            ErrorView,
        >(ErrorView::Crypto("master key must be 32 bytes (64 hex chars)"@)),
{
}

} // verus!
