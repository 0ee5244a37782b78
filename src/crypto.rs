use vstd::prelude::*;
use vstd::utf8::{
    decode_utf8, decode_utf8_encode_utf8, encode_utf8, encode_utf8_decode_utf8,
    encode_utf8_valid_utf8, valid_utf8,
};

verus! {

/// Length in bytes of the nonce at the front of every stored blob.
pub const NONCE_LEN: usize = 12;

/// Largest plaintext, in bytes, that AES-GCM accepts.
pub const MAX_PLAINTEXT_LEN: u64 = 68719476736;

/// Length in bytes of the authentication tag after each ciphertext.
pub const TAG_LEN: u64 = 16;

/// Largest message part (ciphertext without its tag), in bytes, that AES-GCM
/// decrypts: `MAX_PLAINTEXT_LEN` plus the tag length.
pub const MAX_MESSAGE_LEN: u64 = 68719476752;

/// Why encryption or decryption failed.
#[derive(Clone, Copy, Debug, PartialEq, Eq, Structural)]
pub enum CryptoError {
    /// The cipher refused the plaintext.
    Encryption,
    /// The blob is not base64, or too short to hold a nonce.
    Decode,
    /// The ciphertext was tampered with or made under another key.
    Authentication,
    /// The decrypted bytes are not valid UTF-8.
    Encoding,
}

/// The AES-256-GCM output (ciphertext followed by its 16-byte tag) for a key,
/// a nonce and a plaintext, with no associated data.
pub uninterp spec fn aes_gcm_sealed(key: Seq<u8>, nonce: Seq<u8>, plain: Seq<u8>) -> Seq<u8>;

/// The standard, padded base64 text of a byte string.
pub uninterp spec fn base64_text(bytes: Seq<u8>) -> Seq<char>;

/// The stored blob for `text` under `key` with nonce `nonce`: base64 of the
/// nonce followed by the authenticated ciphertext of the UTF-8 bytes.
pub open spec fn sealed_blob(key: Seq<u8>, nonce: Seq<u8>, text: Seq<char>) -> Seq<char> {
    base64_text(nonce + aes_gcm_sealed(key, nonce, encode_utf8(text)))
}

/// Whether `data` (nonce, then ciphertext) authenticates under `key` as the
/// encryption of `plain`.
pub open spec fn opens_to(key: Seq<u8>, data: Seq<u8>, plain: Seq<u8>) -> bool {
    &&& data.len() >= NONCE_LEN
    &&& plain.len() <= MAX_MESSAGE_LEN
    &&& aes_gcm_sealed(key, data.subrange(0, NONCE_LEN as int), plain) == data.subrange(
        NONCE_LEN as int,
        data.len() as int,
    )
}

/// What decrypting the raw bytes `data` under `key` yields.
pub open spec fn open_outcome(
    key: Seq<u8>,
    data: Seq<u8>,
    r: Result<Seq<char>, CryptoError>,
) -> bool {
    if data.len() < NONCE_LEN {
        r == Err::<Seq<char>, CryptoError>(CryptoError::Decode)
    } else if exists|p: Seq<u8>| opens_to(key, data, p) {
        forall|p: Seq<u8>|
            #[trigger] opens_to(key, data, p) ==> r == (if valid_utf8(p) {
                Ok::<Seq<char>, CryptoError>(decode_utf8(p))
            } else {
                Err(CryptoError::Encoding)
            })
    } else {
        r == Err::<Seq<char>, CryptoError>(CryptoError::Authentication)
    }
}

/// What decrypting the base64 blob `blob` under `key` yields.
pub open spec fn decrypt_outcome(
    key: Seq<u8>,
    blob: Seq<char>,
    r: Result<Seq<char>, CryptoError>,
) -> bool {
    if exists|d: Seq<u8>| base64_text(d) == blob {
        forall|d: Seq<u8>| #[trigger] base64_text(d) == blob ==> open_outcome(key, d, r)
    } else {
        r == Err::<Seq<char>, CryptoError>(CryptoError::Decode)
    }
}

/// The result of decrypting `blob` under `key`.
pub open spec fn decrypted(key: Seq<u8>, blob: Seq<char>) -> Result<Seq<char>, CryptoError> {
    choose|r: Result<Seq<char>, CryptoError>| decrypt_outcome(key, blob, r)
}

/// Decryption has at most one outcome for a given key and blob.
pub proof fn lemma_decrypt_outcome_unique(
    key: Seq<u8>,
    blob: Seq<char>,
    r1: Result<Seq<char>, CryptoError>,
    r2: Result<Seq<char>, CryptoError>,
)
    requires
        decrypt_outcome(key, blob, r1),
        decrypt_outcome(key, blob, r2),
    ensures
        r1 == r2,
{
    if exists|d: Seq<u8>| base64_text(d) == blob {
        let d = choose|d: Seq<u8>| base64_text(d) == blob;
        assert(open_outcome(key, d, r1));
        assert(open_outcome(key, d, r2));
        if d.len() >= NONCE_LEN && exists|p: Seq<u8>| opens_to(key, d, p) {
            let p = choose|p: Seq<u8>| opens_to(key, d, p);
            assert(opens_to(key, d, p));
        }
    }
}

/// Any outcome of decryption is the one `decrypted` names.
pub proof fn lemma_decrypted(key: Seq<u8>, blob: Seq<char>, r: Result<Seq<char>, CryptoError>)
    requires
        decrypt_outcome(key, blob, r),
    ensures
        decrypted(key, blob) == r,
{
    lemma_decrypt_outcome_unique(key, blob, r, decrypted(key, blob));
}

/// A text result seen through the characters of its string.
pub open spec fn text_result(r: Result<String, CryptoError>) -> Result<Seq<char>, CryptoError> {
    match r {
        Ok(s) => Ok(s@),
        Err(e) => Err(e),
    }
}

/// Decrypting what encryption produced gives back the original text, for
/// every nonce and every text the cipher accepts, empty and multibyte included.
pub proof fn lemma_round_trip(
    key: Seq<u8>,
    nonce: Seq<u8>,
    text: Seq<char>,
    r: Result<Seq<char>, CryptoError>,
)
    requires
        nonce.len() == NONCE_LEN,
        encode_utf8(text).len() <= MAX_PLAINTEXT_LEN,
        decrypt_outcome(key, sealed_blob(key, nonce, text), r),
    ensures
        r == Ok::<Seq<char>, CryptoError>(text),
{
    broadcast use encode_utf8_valid_utf8, encode_utf8_decode_utf8;

    let plain = encode_utf8(text);
    let data = nonce + aes_gcm_sealed(key, nonce, plain);
    assert(base64_text(data) == sealed_blob(key, nonce, text));
    assert(data.subrange(0, NONCE_LEN as int) =~= nonce);
    assert(data.subrange(NONCE_LEN as int, data.len() as int) =~= aes_gcm_sealed(key, nonce, plain));
    assert(opens_to(key, data, plain));
    assert(open_outcome(key, data, r));
}

/// A blob whose ciphertext is not the encryption of `text` under the blob's own
/// nonce never decrypts to `text`: whatever it decrypts to, if anything, is a
/// text whose encryption is exactly the ciphertext found in the blob.
pub proof fn lemma_tamper_detected(
    key: Seq<u8>,
    nonce: Seq<u8>,
    body: Seq<u8>,
    text: Seq<char>,
    r: Result<Seq<char>, CryptoError>,
)
    requires
        nonce.len() == NONCE_LEN,
        body != aes_gcm_sealed(key, nonce, encode_utf8(text)),
        decrypt_outcome(key, base64_text(nonce + body), r),
    ensures
        r != Ok::<Seq<char>, CryptoError>(text),
        r matches Ok(s) ==> aes_gcm_sealed(key, nonce, encode_utf8(s)) == body,
{
    let data = nonce + body;
    assert(data.subrange(0, NONCE_LEN as int) =~= nonce);
    assert(data.subrange(NONCE_LEN as int, data.len() as int) =~= body);
    assert(open_outcome(key, data, r));
    if exists|p: Seq<u8>| opens_to(key, data, p) {
        let p = choose|p: Seq<u8>| opens_to(key, data, p);
        if valid_utf8(p) {
            decode_utf8_encode_utf8(p);
        }
    }
}

/// Relies on `aes_gcm::Aes256Gcm` (`KeyInit::new`, `Aead::encrypt`): it fails
/// exactly on plaintexts over 2^36 bytes (`aes_gcm::P_MAX`), and is otherwise a function of
/// key, nonce and plaintext, with the 16-byte tag appended; for a fixed key
/// and nonce, counter mode makes distinct plaintexts encrypt differently.
#[verifier::external_body]
fn aes_gcm_seal(key: &[u8; 32], nonce: &[u8], plain: &[u8]) -> (r: Option<Vec<u8>>)
    requires
        nonce@.len() == NONCE_LEN,
    ensures
        r is Some <==> plain@.len() <= MAX_PLAINTEXT_LEN,
        r matches Some(c) ==> c@ == aes_gcm_sealed(key@, nonce@, plain@),
        r matches Some(c) ==> c@.len() == plain@.len() + TAG_LEN,
        r matches Some(c) ==> forall|p: Seq<u8>|
            #[trigger] aes_gcm_sealed(key@, nonce@, p) == c@ ==> p == plain@,
{
    let cipher = <aes_gcm::Aes256Gcm as aes_gcm::KeyInit>::new(
        aes_gcm::Key::<aes_gcm::Aes256Gcm>::from_slice(key),
    );
    aes_gcm::aead::Aead::encrypt(&cipher, aes_gcm::Nonce::from_slice(nonce), plain).ok()
}

/// Relies on `aes_gcm::Aes256Gcm` (`KeyInit::new`, `Aead::decrypt`): it
/// recomputes the tag and succeeds exactly when `sealed` is the encryption of
/// some plaintext under this key and nonce, returning that plaintext. It
/// bounds the message part by `aes_gcm::C_MAX` (2^36 + 16 bytes), not by the
/// plaintext limit of encryption.
#[verifier::external_body]
fn aes_gcm_open(key: &[u8; 32], nonce: &[u8], sealed: &[u8]) -> (r: Option<Vec<u8>>)
    requires
        nonce@.len() == NONCE_LEN,
    ensures
        r matches Some(p) ==> p@.len() <= MAX_MESSAGE_LEN && aes_gcm_sealed(key@, nonce@, p@)
            == sealed@,
        r is None ==> forall|p: Seq<u8>|
            p.len() <= MAX_MESSAGE_LEN ==> #[trigger] aes_gcm_sealed(key@, nonce@, p) != sealed@,
        r matches Some(q) ==> forall|p: Seq<u8>|
            p.len() <= MAX_MESSAGE_LEN && #[trigger] aes_gcm_sealed(key@, nonce@, p) == sealed@
                ==> p == q@,
{
    let cipher = <aes_gcm::Aes256Gcm as aes_gcm::KeyInit>::new(
        aes_gcm::Key::<aes_gcm::Aes256Gcm>::from_slice(key),
    );
    aes_gcm::aead::Aead::decrypt(&cipher, aes_gcm::Nonce::from_slice(nonce), sealed).ok()
}

/// Relies on `base64::Engine::encode` with the `STANDARD` engine; distinct
/// byte strings have distinct encodings.
#[verifier::external_body]
fn base64_encode(bytes: &[u8]) -> (r: String)
    ensures
        r@ == base64_text(bytes@),
        forall|b: Seq<u8>| #[trigger] base64_text(b) == r@ ==> b == bytes@,
{
    base64::Engine::encode(&base64::engine::general_purpose::STANDARD, bytes)
}

/// Relies on `base64::Engine::decode` with the `STANDARD` engine, which
/// requires canonical padding and rejects trailing bits: it succeeds exactly on
/// the texts that `encode` produces, and returns the bytes encoded.
#[verifier::external_body]
fn base64_decode(text: &str) -> (r: Option<Vec<u8>>)
    ensures
        r matches Some(b) ==> base64_text(b@) == text@,
        r is None ==> forall|b: Seq<u8>| #[trigger] base64_text(b) != text@,
        r matches Some(d) ==> forall|b: Seq<u8>| #[trigger] base64_text(b) == text@ ==> b == d@,
{
    base64::Engine::decode(&base64::engine::general_purpose::STANDARD, text).ok()
}

/// Relies on `rand_core::OsRng::fill_bytes`: twelve bytes from the operating
/// system's secure generator.
#[verifier::external_body]
fn random_nonce() -> (r: Vec<u8>)
    ensures
        r@.len() == NONCE_LEN,
{
    let mut nonce = [0u8; 12];
    rand_core::RngCore::fill_bytes(&mut rand_core::OsRng, &mut nonce);
    nonce.to_vec()
}

/// Relies on `String::from_utf8`: succeeds exactly on valid UTF-8.
#[verifier::external_body]
fn utf8_string(bytes: Vec<u8>) -> (r: Option<String>)
    ensures
        r is Some <==> valid_utf8(bytes@),
        r matches Some(s) ==> s@ == decode_utf8(bytes@),
{
    String::from_utf8(bytes).ok()
}

/// Authenticated symmetric encryption of URL strings under a fixed 256-bit key.
#[derive(Clone)]
pub struct Encryptor {
    key: [u8; 32],
}

impl Encryptor {
    /// The key this encryptor was built with.
    pub closed spec fn key(&self) -> Seq<u8> {
        self.key@
    }

    pub fn new(key: &[u8; 32]) -> (r: Encryptor)
        ensures
            r.key() == key@,
    {
        Encryptor { key: *key }
    }

    /// Builds an encryptor from a base64 text that must hold exactly 32 bytes.
    pub fn from_base64_key(text: &str) -> (r: Option<Encryptor>)
        ensures
            r matches Some(e) ==> base64_text(e.key()) == text@,
            (exists|b: Seq<u8>| b.len() == 32 && #[trigger] base64_text(b) == text@) ==> r is Some,
    {
        match base64_decode(text) {
            Some(bytes) => {
                if bytes.len() != 32 {
                    return None;
                }
                let mut key = [0u8; 32];
                let mut i: usize = 0;
                while i < 32
                    invariant
                        bytes@.len() == 32,
                        i <= 32,
                        forall|j: int| 0 <= j < i ==> key@[j] == bytes@[j],
                    decreases 32 - i,
                {
                    key[i] = bytes[i];
                    i = i + 1;
                }
                assert(key@ =~= bytes@);
                Some(Encryptor { key })
            },
            None => None,
        }
    }

    /// Encrypts `text` with the given nonce: base64 of nonce || ciphertext.
    pub fn encrypt_with_nonce(&self, nonce: &Vec<u8>, text: &str) -> (r: Result<String, CryptoError>)
        requires
            nonce@.len() == NONCE_LEN,
        ensures
            text_result(r) == if encode_utf8(text@).len() <= MAX_PLAINTEXT_LEN {
                Ok::<Seq<char>, CryptoError>(sealed_blob(self.key(), nonce@, text@))
            } else {
                Err(CryptoError::Encryption)
            },
            r matches Ok(b) ==> decrypted(self.key(), b@) == Ok::<Seq<char>, CryptoError>(text@),
            r is Ok ==> aes_gcm_sealed(self.key(), nonce@, encode_utf8(text@)).len() == encode_utf8(
                text@,
            ).len() + TAG_LEN,
    {
        let plain = text.as_bytes();
        match aes_gcm_seal(&self.key, nonce.as_slice(), plain) {
            Some(ciphertext) => {
                let mut combined = nonce.clone();
                combined.extend_from_slice(ciphertext.as_slice());
                assert(combined@ =~= nonce@ + ciphertext@);
                let blob = base64_encode(combined.as_slice());
                proof {
                    broadcast use encode_utf8_valid_utf8, encode_utf8_decode_utf8;

                    let d = combined@;
                    assert(d.subrange(0, NONCE_LEN as int) =~= nonce@);
                    assert(d.subrange(NONCE_LEN as int, d.len() as int) =~= ciphertext@);
                    assert(opens_to(self.key(), d, plain@));
                    assert(open_outcome(self.key(), d, Ok(text@)));
                    assert(decrypt_outcome(self.key(), blob@, Ok(text@)));
                    lemma_decrypted(self.key(), blob@, Ok(text@));
                }
                Ok(blob)
            },
            None => Err(CryptoError::Encryption),
        }
    }

    /// Encrypts `text` under a fresh random nonce.
    pub fn encrypt(&self, text: &str) -> (r: Result<String, CryptoError>)
        ensures
            encode_utf8(text@).len() <= MAX_PLAINTEXT_LEN ==> exists|n: Seq<u8>|
                n.len() == NONCE_LEN && text_result(r) == Ok::<Seq<char>, CryptoError>(
                    #[trigger] sealed_blob(self.key(), n, text@),
                ) && aes_gcm_sealed(self.key(), n, encode_utf8(text@)).len() == encode_utf8(
                    text@,
                ).len() + TAG_LEN,
            encode_utf8(text@).len() > MAX_PLAINTEXT_LEN ==> r == Err::<String, CryptoError>(
                CryptoError::Encryption,
            ),
            r matches Ok(b) ==> decrypted(self.key(), b@) == Ok::<Seq<char>, CryptoError>(text@),
    {
        let nonce = random_nonce();
        let r = self.encrypt_with_nonce(&nonce, text);
        assert(encode_utf8(text@).len() <= MAX_PLAINTEXT_LEN ==> text_result(r) == Ok::<
            Seq<char>,
            CryptoError,
        >(sealed_blob(self.key(), nonce@, text@)) && aes_gcm_sealed(
            self.key(),
            nonce@,
            encode_utf8(text@),
        ).len() == encode_utf8(text@).len() + TAG_LEN);
        r
    }

    /// Decrypts raw blob bytes: a 12-byte nonce followed by the ciphertext.
    pub fn decrypt_bytes(&self, data: &Vec<u8>) -> (r: Result<String, CryptoError>)
        ensures
            open_outcome(self.key(), data@, text_result(r)),
    {
        if data.len() < NONCE_LEN {
            return Err(CryptoError::Decode);
        }
        let mut nonce = data.clone();
        let body = nonce.split_off(NONCE_LEN);
        assert(nonce@ =~= data@.subrange(0, NONCE_LEN as int));
        assert(body@ =~= data@.subrange(NONCE_LEN as int, data@.len() as int));
        match aes_gcm_open(&self.key, nonce.as_slice(), body.as_slice()) {
            Some(plain) => {
                assert(opens_to(self.key(), data@, plain@));
                match utf8_string(plain) {
                    Some(s) => Ok(s),
                    None => Err(CryptoError::Encoding),
                }
            },
            None => Err(CryptoError::Authentication),
        }
    }

    /// Decrypts a stored blob back to the text it was made from.
    pub fn decrypt(&self, blob: &str) -> (r: Result<String, CryptoError>)
        ensures
            decrypt_outcome(self.key(), blob@, text_result(r)),
            text_result(r) == decrypted(self.key(), blob@),
    {
        let r = match base64_decode(blob) {
            Some(data) => self.decrypt_bytes(&data),
            None => Err(CryptoError::Decode),
        };
        proof {
            lemma_decrypted(self.key(), blob@, text_result(r));
        }
        r
    }
}

} // verus!
