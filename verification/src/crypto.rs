//! Account secrets, their Argon2id verifiers, and encrypted command receipts.

use vstd::prelude::*;
use vstd::string::*;
use vstd::utf8::*;

use crate::debug::{
    debug_struct, field_views, fields_text, plain, quoted, quoted_text, redacted, redacted_text,
    redacted_text_is_quoted, redaction_is_shown, struct_text,
};
use crate::error::CryptoError;
use crate::text::{
    all_base64, base64_char, holds_text, is_base64_text, lemma_holds_middle, lemma_lacks,
    lemma_lacks_both, same_text, text_len,
};

verus! {

/// What every account secret starts with.
pub const SECRET_PREFIX: &'static str = "lenso_sa_";

/// `aes_gcm::Error`: encryption or decryption failed, without further detail.
#[verifier::external_type_specification]
#[verifier::external_body]
pub struct ExAeadError(aes_gcm::Error);

/// Bytes held in `zeroize::Zeroizing`, which overwrites them when dropped.
#[verifier::external_body]
pub struct SecretBytes {
    inner: zeroize::Zeroizing<Vec<u8>>,
}

/// The bytes that a `SecretBytes` holds.
pub uninterp spec fn secret_bytes(secret: SecretBytes) -> Seq<u8>;

/// Text held in `zeroize::Zeroizing`, which overwrites it when dropped.
#[verifier::external_body]
pub struct SecretText {
    inner: zeroize::Zeroizing<String>,
}

/// The text that a `SecretText` holds.
pub uninterp spec fn secret_text(secret: SecretText) -> Seq<char>;

/// `zeroize::Zeroizing::new` on a byte vector keeps the bytes.
#[verifier::external_body]
fn guard_bytes(bytes: Vec<u8>) -> (secret: SecretBytes)
    ensures
        secret_bytes(secret) == bytes@,
{
    SecretBytes { inner: zeroize::Zeroizing::new(bytes) }
}

/// Dereferencing `zeroize::Zeroizing` gives the bytes it was made with.
#[verifier::external_body]
fn guarded_bytes(secret: &SecretBytes) -> (bytes: &[u8])
    ensures
        bytes@ == secret_bytes(*secret),
{
    secret.inner.as_slice()
}

/// `zeroize::Zeroizing::new` on a string keeps the text.
#[verifier::external_body]
fn guard_text(text: String) -> (secret: SecretText)
    ensures
        secret_text(secret) == text@,
{
    SecretText { inner: zeroize::Zeroizing::new(text) }
}

/// Dereferencing `zeroize::Zeroizing` gives the text it was made with.
#[verifier::external_body]
fn guarded_text(secret: &SecretText) -> (text: &str)
    ensures
        text@ == secret_text(*secret),
{
    secret.inner.as_str()
}

impl SecretBytes {
    pub fn new(bytes: Vec<u8>) -> (secret: SecretBytes)
        ensures
            secret_bytes(secret) == bytes@,
    {
        guard_bytes(bytes)
    }

    pub fn as_slice(&self) -> (bytes: &[u8])
        ensures
            bytes@ == secret_bytes(*self),
    {
        guarded_bytes(self)
    }
}

impl SecretText {
    pub fn new(text: String) -> (secret: SecretText)
        ensures
            secret_text(secret) == text@,
    {
        guard_text(text)
    }

    pub fn as_str(&self) -> (text: &str)
        ensures
            text@ == secret_text(*self),
    {
        guarded_text(self)
    }
}

/// The SHA-256 digest of a byte string.
pub uninterp spec fn sha256_digest(bytes: Seq<u8>) -> Seq<u8>;

/// AES-256-GCM with a 16-byte tag: the ciphertext of a message.
pub uninterp spec fn aes256_gcm_sealed(
    key: Seq<u8>,
    nonce: Seq<u8>,
    message: Seq<u8>,
    aad: Seq<u8>,
) -> Seq<u8>;

/// AES-256-GCM with a 16-byte tag: the message of an authentic ciphertext.
pub uninterp spec fn aes256_gcm_opened(
    key: Seq<u8>,
    nonce: Seq<u8>,
    ciphertext: Seq<u8>,
    aad: Seq<u8>,
) -> Option<Seq<u8>>;

/// The character of the URL-safe base64 alphabet for six bits.
pub open spec fn base64_digit(n: int) -> char {
    if n < 26 {
        ('A' as u32 + n) as char
    } else if n < 52 {
        ('a' as u32 + (n - 26)) as char
    } else if n < 62 {
        ('0' as u32 + (n - 52)) as char
    } else if n == 62 {
        '-'
    } else {
        '_'
    }
}

/// URL-safe base64 without padding: four characters for three bytes, six bits
/// each, and as many as are needed for what is left.
pub open spec fn base64_text(bytes: Seq<u8>) -> Seq<char>
    decreases bytes.len(),
{
    let a = bytes[0] as int;
    let b = bytes[1] as int;
    let c = bytes[2] as int;
    if bytes.len() == 0 {
        Seq::empty()
    } else if bytes.len() == 1 {
        seq![base64_digit(a / 4), base64_digit(a % 4 * 16)]
    } else if bytes.len() == 2 {
        seq![base64_digit(a / 4), base64_digit(a % 4 * 16 + b / 16), base64_digit(b % 16 * 4)]
    } else {
        seq![
            base64_digit(a / 4),
            base64_digit(a % 4 * 16 + b / 16),
            base64_digit(b % 16 * 4 + c / 64),
            base64_digit(c % 64),
        ] + base64_text(bytes.skip(3))
    }
}

/// Base64 has four characters for three bytes, rounded up, all of the URL-safe
/// alphabet.
pub proof fn base64_length_and_alphabet(bytes: Seq<u8>)
    ensures
        base64_text(bytes).len() == (bytes.len() * 4 + 2) / 3,
        all_base64(base64_text(bytes)),
    decreases bytes.len(),
{
    let text = base64_text(bytes);
    if bytes.len() >= 3 {
        let rest = base64_text(bytes.skip(3));
        base64_length_and_alphabet(bytes.skip(3));
        assert forall|i: int| 0 <= i < text.len() implies base64_char(#[trigger] text[i]) by {
            if i >= 4 {
                assert(text[i] == rest[i - 4]);
            }
        }
    }
}

/// The PHC string that Argon2id, version 19, with default parameters makes of
/// a password and a salt.
pub uninterp spec fn argon2id_phc(password: Seq<u8>, salt: Seq<u8>) -> Seq<char>;

/// The algorithm that a PHC string names, and its parameters as names and
/// values; nothing if it is no PHC string.
pub uninterp spec fn phc_parts(phc: Seq<char>) -> Option<
    (Seq<char>, Seq<(Seq<char>, Seq<char>)>),
>;

/// Whether hashing the password with the parameters and the salt of a PHC
/// string gives the hash in that string.
pub uninterp spec fn argon2_accepts(password: Seq<u8>, phc: Seq<char>) -> bool;

/// `getrandom::fill` on a buffer of `len` bytes. An empty buffer is filled
/// without asking the random source, so that this succeeds. Nothing is claimed
/// of the bytes, nor when the random source succeeds.
#[verifier::external_body]
fn random_bytes(len: usize) -> (r: Result<Vec<u8>, getrandom::Error>)
    ensures
        r matches Ok(bytes) ==> bytes@.len() == len,
        len == 0 ==> r is Ok,
{
    let mut bytes = vec![0_u8; len];
    getrandom::fill(&mut bytes).map(|()| bytes)
}

/// `sha2::Sha256::digest`: 32 bytes that depend on the input alone.
#[verifier::external_body]
fn sha256(bytes: &[u8]) -> (digest: Vec<u8>)
    ensures
        digest@ == sha256_digest(bytes@),
        digest@.len() == 32,
{
    <sha2::Sha256 as sha2::Digest>::digest(bytes).to_vec()
}

/// `aes_gcm::aead::Aead::encrypt` of `aes_gcm::Aes256Gcm`. It fails exactly on
/// a message or on associated data of more than 2^36 bytes. The ciphertext
/// depends on the four arguments alone, is 16 bytes longer than the message,
/// and `decrypt` gives the message back.
#[verifier::external_body]
fn aes_seal(key: &[u8], nonce: &[u8], message: &[u8], aad: &[u8]) -> (r: Result<Vec<u8>, aes_gcm::Error>)
    requires
        key@.len() == 32,
        nonce@.len() == 12,
    ensures
        r is Ok == (message@.len() <= 0x10_0000_0000 && aad@.len() <= 0x10_0000_0000),
        r matches Ok(ciphertext) ==> {
            &&& ciphertext@ == aes256_gcm_sealed(key@, nonce@, message@, aad@)
            &&& ciphertext@.len() == message@.len() + 16
            &&& aes256_gcm_opened(key@, nonce@, ciphertext@, aad@) == Some(message@)
        },
{
    let cipher = <aes_gcm::Aes256Gcm as aes_gcm::KeyInit>::new_from_slice(key).map_err(|_| aes_gcm::Error)?;
    let payload = aes_gcm::aead::Payload { msg: message, aad };
    aes_gcm::aead::Aead::encrypt(&cipher, aes_gcm::Nonce::from_slice(nonce), payload)
}

/// `aes_gcm::aead::Aead::decrypt` of `aes_gcm::Aes256Gcm`. Whether it accepts,
/// and the message, depend on the four arguments alone. That no one without
/// the key makes an accepted ciphertext is left unsaid.
#[verifier::external_body]
fn aes_open(key: &[u8], nonce: &[u8], ciphertext: &[u8], aad: &[u8]) -> (r: Result<Vec<u8>, aes_gcm::Error>)
    requires
        key@.len() == 32,
        nonce@.len() == 12,
    ensures
        match r {
            Ok(message) => aes256_gcm_opened(key@, nonce@, ciphertext@, aad@) == Some(message@),
            Err(_) => aes256_gcm_opened(key@, nonce@, ciphertext@, aad@) is None,
        },
{
    let cipher = <aes_gcm::Aes256Gcm as aes_gcm::KeyInit>::new_from_slice(key).map_err(|_| aes_gcm::Error)?;
    let payload = aes_gcm::aead::Payload { msg: ciphertext, aad };
    aes_gcm::aead::Aead::decrypt(&cipher, aes_gcm::Nonce::from_slice(nonce), payload)
}

/// `base64::Engine::encode` of `URL_SAFE_NO_PAD`: the bytes are written in the
/// URL-safe alphabet, six bits for each character, the last ones filled up with
/// zeros, and no padding follows.
#[verifier::external_body]
fn base64_encode(bytes: &[u8]) -> (text: String)
    ensures
        text@ == base64_text(bytes@),
{
    base64::Engine::encode(&base64::engine::general_purpose::URL_SAFE_NO_PAD, bytes)
}

/// `argon2::PasswordHasher::hash_password` of Argon2id, version 19, with
/// default parameters, written as a PHC string. It fails exactly on a password
/// of more than 2^32 - 1 bytes. The string depends on the password and the salt
/// alone, starts with the algorithm `argon2id` and the version, names the default
/// parameters, and `verify_password` accepts the password against it.
#[verifier::external_body]
fn argon2_hash(password: &[u8], salt: &[u8]) -> (r: Result<String, argon2::password_hash::Error>)
    requires
        salt@.len() == 16,
    ensures
        r is Ok <==> password@.len() <= 0xffff_ffff,
        r matches Ok(phc) ==> {
            &&& phc@ == argon2id_phc(password@, salt@)
            &&& "$argon2id$v=19$"@.is_prefix_of(phc@)
            &&& phc_parts(phc@) == Some(
                ("argon2id"@, seq![("m"@, "19456"@), ("t"@, "2"@), ("p"@, "1"@)]),
            )
            &&& argon2_accepts(password@, phc@)
        },
{
    let salt = argon2::password_hash::SaltString::encode_b64(salt)?;
    let hasher = argon2::Argon2::new(
        argon2::Algorithm::Argon2id,
        argon2::Version::V0x13,
        argon2::Params::default(),
    );
    argon2::PasswordHasher::hash_password(&hasher, password, &salt).map(|hash| hash.to_string())
}

/// `argon2::PasswordHash::new` and its fields `algorithm` and `params`, which
/// depend on the text alone.
#[verifier::external_body]
fn phc_parts_of(phc: &str) -> (r: Option<(String, Vec<(String, String)>)>)
    ensures
        r.deep_view() == phc_parts(phc@),
{
    let hash = argon2::PasswordHash::new(phc).ok()?;
    let params = hash.params.iter();
    let params = params.map(|(name, value)| (name.as_str().to_owned(), value.as_str().to_owned()));
    Some((hash.algorithm.as_str().to_owned(), params.collect()))
}

/// `argon2::PasswordVerifier::verify_password` of an Argon2 hasher, on the PHC
/// string parsed by `argon2::PasswordHash::new`; false where that text does not
/// parse. The answer depends on the password and the text alone. Eight times
/// the degree of parallelism that the text asks for has to fit in 32 bits. The
/// hasher allocates the memory that the text's own parameters ask for.
#[verifier::external_body]
fn argon2_verify(password: &[u8], phc: &str) -> (accepted: bool)
    requires
        phc_parts(phc@) matches Some(parts) ==> bounded_lanes(parts.1),
    ensures
        accepted == (phc_parts(phc@) is Some && argon2_accepts(password@, phc@)),
{
    let hasher = argon2::Argon2::new(
        argon2::Algorithm::Argon2id,
        argon2::Version::V0x13,
        argon2::Params::default(),
    );
    argon2::PasswordHash::new(phc).is_ok_and(|hash| {
        argon2::PasswordVerifier::verify_password(&hasher, password, &hash).is_ok()
    })
}

/// The degree of parallelism `p` has at most eight digits. Where it is given
/// more than once, the last value counts. A greater degree is none that Argon2
/// knows.
pub open spec fn bounded_lanes(params: Seq<(Seq<char>, Seq<char>)>) -> bool
    decreases params.len(),
{
    if params.len() == 0 {
        true
    } else if params.last().0 == "p"@ {
        params.last().1.len() <= 8
    } else {
        bounded_lanes(params.drop_last())
    }
}

fn has_bounded_lanes(params: &Vec<(String, String)>) -> (r: bool)
    ensures
        r == bounded_lanes(params.deep_view()),
{
    let mut bounded: bool = true;
    let mut i: usize = 0;
    let ghost all = params.deep_view();
    while i < params.len()
        invariant
            i <= params@.len(),
            all == params.deep_view(),
            bounded == bounded_lanes(all.take(i as int)),
        decreases params@.len() - i,
    {
        if same_text(params[i].0.as_str(), "p") {
            bounded = params[i].1.as_str().unicode_len() <= 8;
        }
        assert(all.take(i + 1).drop_last() =~= all.take(i as int));
        i += 1;
    }
    assert(all.take(i as int) =~= all);
    bounded
}

/// `byte_count` bytes of secure random material. Only where some are asked for
/// can the random source fail.
pub fn random_material(byte_count: usize) -> (r: Result<Vec<u8>, getrandom::Error>)
    ensures
        match r {
            Ok(bytes) => bytes@.len() == byte_count,
            Err(_) => byte_count > 0,
        },
{
    random_bytes(byte_count)
}

/// SHA-256.
pub fn digest(bytes: &[u8]) -> (r: Vec<u8>)
    ensures
        r@ == sha256_digest(bytes@),
        r@.len() == 32,
{
    sha256(bytes)
}

/// URL-safe base64 without padding.
pub fn encode_base64(bytes: &[u8]) -> (text: String)
    ensures
        text@ == base64_text(bytes@),
        text@.len() == (bytes@.len() * 4 + 2) / 3,
        all_base64(text@),
{
    proof {
        base64_length_and_alphabet(bytes@);
    }
    base64_encode(bytes)
}

/// Encrypts and decrypts the receipts of completed commands.
pub struct ReceiptCipher {
    key: SecretBytes,
}

impl ReceiptCipher {
    #[verifier::type_invariant]
    spec fn well_formed(self) -> bool {
        secret_bytes(self.key).len() == 32
    }

    /// The AES-256 key.
    pub closed spec fn key(self) -> Seq<u8> {
        secret_bytes(self.key)
    }

    /// The cipher whose key is the SHA-256 digest of `secret`.
    pub fn derive(secret: &[u8]) -> (cipher: ReceiptCipher)
        ensures
            cipher.key() == sha256_digest(secret@),
    {
        ReceiptCipher { key: guard_bytes(sha256(secret)) }
    }

    /// Encrypts a receipt under a fresh random nonce and binds it to `aad`.
    /// `decrypt` with the same nonce and `aad` gives the receipt back.
    pub fn encrypt(&self, receipt: &[u8], aad: &[u8]) -> (r: Result<(Vec<u8>, Vec<u8>), CryptoError>)
        ensures
            match r {
                Ok((nonce, ciphertext)) => {
                    &&& nonce@.len() == 12
                    &&& receipt@.len() <= 0x10_0000_0000
                    &&& aad@.len() <= 0x10_0000_0000
                    &&& ciphertext@ == aes256_gcm_sealed(self.key(), nonce@, receipt@, aad@)
                    &&& aes256_gcm_opened(self.key(), nonce@, ciphertext@, aad@) == Some(receipt@)
                },
                Err(error) => {
                    ||| error is Random
                    ||| error is ReceiptEncryption && (receipt@.len() > 0x10_0000_0000 || aad@.len()
                        > 0x10_0000_0000)
                },
            },
    {
        match random_bytes(12) {
            Ok(nonce) => match self.encrypt_with_nonce(nonce.as_slice(), receipt, aad) {
                Ok(ciphertext) => Ok((nonce, ciphertext)),
                Err(error) => Err(error),
            },
            Err(error) => Err(CryptoError::Random(error)),
        }
    }

    /// Encrypts a receipt under the given nonce.
    pub fn encrypt_with_nonce(&self, nonce: &[u8], receipt: &[u8], aad: &[u8]) -> (r: Result<
        Vec<u8>,
        CryptoError,
    >)
        requires
            nonce@.len() == 12,
        ensures
            match r {
                Ok(ciphertext) => {
                    &&& receipt@.len() <= 0x10_0000_0000
                    &&& aad@.len() <= 0x10_0000_0000
                    &&& ciphertext@ == aes256_gcm_sealed(self.key(), nonce@, receipt@, aad@)
                    &&& aes256_gcm_opened(self.key(), nonce@, ciphertext@, aad@) == Some(receipt@)
                },
                Err(error) => {
                    &&& error is ReceiptEncryption
                    &&& receipt@.len() > 0x10_0000_0000 || aad@.len() > 0x10_0000_0000
                },
            },
    {
        proof {
            use_type_invariant(self);
        }
        match aes_seal(guarded_bytes(&self.key), nonce, receipt, aad) {
            Ok(ciphertext) => Ok(ciphertext),
            Err(_) => Err(CryptoError::ReceiptEncryption),
        }
    }

    /// The receipt that `ciphertext` holds, if it is authentic for `nonce` and
    /// `aad`. A nonce that is not 12 bytes long fails too.
    pub fn decrypt(&self, nonce: &[u8], ciphertext: &[u8], aad: &[u8]) -> (r: Result<
        Vec<u8>,
        CryptoError,
    >)
        ensures
            match r {
                Ok(receipt) => opened_receipt(self.key(), nonce@, ciphertext@, aad@) == Some(
                    receipt@,
                ),
                Err(error) => {
                    &&& error is ReceiptDecryption
                    &&& opened_receipt(self.key(), nonce@, ciphertext@, aad@) is None
                },
            },
    {
        if nonce.len() != 12 {
            return Err(CryptoError::ReceiptDecryption);
        }
        proof {
            use_type_invariant(self);
        }
        match aes_open(guarded_bytes(&self.key), nonce, ciphertext, aad) {
            Ok(receipt) => Ok(receipt),
            Err(_) => Err(CryptoError::ReceiptDecryption),
        }
    }

    /// The form of a cipher in diagnostics.
    pub open spec fn debug_view(self) -> Seq<char> {
        "ReceiptCipher(<redacted>)"@
    }

    pub fn debug_text(&self) -> (r: String)
        ensures
            r@ == self.debug_view(),
    {
        "ReceiptCipher(<redacted>)".to_string()
    }
}

/// The receipt that a stored nonce and ciphertext stand for.
pub open spec fn opened_receipt(
    key: Seq<u8>,
    nonce: Seq<u8>,
    ciphertext: Seq<u8>,
    aad: Seq<u8>,
) -> Option<Seq<u8>> {
    if nonce.len() == 12 {
        aes256_gcm_opened(key, nonce, ciphertext, aad)
    } else {
        None
    }
}

/// The identifier of the credential whose random part is `id`.
pub open spec fn credential_id_of(id: Seq<u8>) -> Seq<char> {
    "sac_"@ + base64_text(id)
}

/// The secret of a credential with identifier `credential_id`.
pub open spec fn wire_of(credential_id: Seq<char>, material: Seq<u8>) -> Seq<char> {
    SECRET_PREFIX@ + credential_id + "."@ + base64_text(material)
}

/// The part of a secret that names its credential: between the prefix and the
/// first dot, where both parts are well formed.
pub open spec fn named_credential(secret: Seq<char>) -> Option<Seq<char>> {
    if SECRET_PREFIX@.is_prefix_of(secret) {
        let rest = secret.skip(SECRET_PREFIX@.len() as int);
        let dot = rest.index_of_first('.');
        if dot is Some && well_formed_parts(rest.take(dot.unwrap()), rest.skip(dot.unwrap() + 1)) {
            Some(rest.take(dot.unwrap()))
        } else {
            None
        }
    } else {
        None
    }
}

pub open spec fn well_formed_parts(id: Seq<char>, material: Seq<char>) -> bool {
    &&& 1 <= id.len() <= 128
    &&& all_base64(id)
    &&& 32 <= material.len() <= 128
    &&& all_base64(material)
}

/// What a verifier is computed over: the secret, a zero byte, the pepper.
pub open spec fn peppered_input(secret: Seq<char>, pepper: Seq<u8>) -> Seq<u8> {
    encode_utf8(secret) + seq![0u8] + pepper
}

/// Whether `verifier` is an Argon2id verifier of `secret` under `pepper`.
pub open spec fn secret_verifies(secret: Seq<char>, pepper: Seq<u8>, verifier: Seq<char>) -> bool {
    &&& phc_parts(verifier) matches Some(parts) && parts.0 == "argon2id"@ && bounded_lanes(parts.1)
    &&& argon2_accepts(peppered_input(secret, pepper), verifier)
}

/// `verifier` is the Argon2id verifier of `secret` under `pepper` for some salt of
/// 16 bytes, and says so.
pub open spec fn is_salted_verifier(
    secret: Seq<char>,
    pepper: Seq<u8>,
    verifier: Seq<char>,
) -> bool {
    &&& "$argon2id$v=19$"@.is_prefix_of(verifier)
    &&& exists|salt: Seq<u8>|
        salt.len() == 16 && verifier == #[trigger] argon2id_phc(
            peppered_input(secret, pepper),
            salt,
        )
}

/// A service account's secret, as handed out once.
pub struct CredentialSecret {
    pub credential_id: String,
    pub wire: SecretText,
}

impl CredentialSecret {
    /// The raw secret.
    pub open spec fn raw(self) -> Seq<char> {
        secret_text(self.wire)
    }

    /// A secret made of an identifier and of key material.
    pub open spec fn is_made_of(self, id: Seq<u8>, material: Seq<u8>) -> bool {
        &&& self.credential_id@ == credential_id_of(id)
        &&& self.raw() == wire_of(self.credential_id@, material)
    }

    /// The identifier is `sac_` and 24 characters of base64. The secret is the
    /// prefix, the identifier, a dot and 43 characters of base64.
    pub open spec fn is_well_formed(self) -> bool {
        &&& "sac_"@.is_prefix_of(self.credential_id@)
        &&& self.credential_id@.len() == 28
        &&& all_base64(self.credential_id@)
        &&& self.raw().len() == 81
        &&& self.raw().take(9) == SECRET_PREFIX@
        &&& self.raw().subrange(9, 37) == self.credential_id@
        &&& self.raw()[37] == '.'
        &&& all_base64(self.raw().skip(38))
    }

    /// A secret of 256 bits, under an identifier of 144 bits.
    pub open spec fn has_full_length(self) -> bool {
        &&& self.is_well_formed()
        &&& exists|id: Seq<u8>, material: Seq<u8>|
            id.len() == 18 && material.len() == 32 && #[trigger] self.is_made_of(id, material)
    }

    /// A new secret of 256 random bits, under a new random identifier of 144
    /// bits. The secret names its own credential.
    pub fn generate() -> (r: Result<CredentialSecret, CryptoError>)
        ensures
            match r {
                Ok(secret) => {
                    &&& secret.has_full_length()
                    &&& named_credential(secret.raw()) == Some(secret.credential_id@)
                    &&& encode_utf8(secret.raw()).len() == 81
                },
                Err(error) => error is Random,
            },
    {
        let id: Vec<u8> = match random_bytes(18) {
            Ok(id) => id,
            Err(error) => return Err(CryptoError::Random(error)),
        };
        let material: Vec<u8> = match random_bytes(32) {
            Ok(material) => material,
            Err(error) => return Err(CryptoError::Random(error)),
        };
        let secret = CredentialSecret::from_random(id.as_slice(), material.as_slice());
        assert(secret.is_made_of(id@, material@));
        Ok(secret)
    }

    /// The secret made of the given random bytes.
    pub fn from_random(id: &[u8], material: &[u8]) -> (secret: CredentialSecret)
        requires
            id@.len() == 18,
            material@.len() == 32,
        ensures
            secret.is_made_of(id@, material@),
            secret.is_well_formed(),
            named_credential(secret.raw()) == Some(secret.credential_id@),
            encode_utf8(secret.raw()).len() == 81,
    {
        let mut credential_id: String = "sac_".to_string();
        let id_text: String = encode_base64(id);
        credential_id.append(id_text.as_str());
        let mut wire: String = SECRET_PREFIX.to_string();
        wire.append(credential_id.as_str());
        wire.append(".");
        let material_text: String = encode_base64(material);
        wire.append(material_text.as_str());
        proof {
            reveal_strlit("sac_");
            reveal_strlit(".");
            reveal_strlit("lenso_sa_");
            let rest = wire@.skip(SECRET_PREFIX@.len() as int);
            let n = credential_id@.len() as int;
            assert(SECRET_PREFIX@.is_prefix_of(wire@));
            assert(rest =~= credential_id@ + "."@ + material_text@);
            assert(rest[n] == '.');
            assert forall|i: int| 0 <= i < n implies rest[i] != '.' by {
                assert(rest[i] == credential_id@[i]);
                if i >= 4 {
                    assert(credential_id@[i] == id_text@[i - 4]);
                }
            }
            rest.index_of_first_ensures('.');
            assert(rest.take(n) =~= credential_id@);
            assert(rest.skip(n + 1) =~= material_text@);
            assert forall|i: int| 0 <= i < n implies base64_char(
                #[trigger] credential_id@[i],
            ) by {
                if i >= 4 {
                    assert(credential_id@[i] == id_text@[i - 4]);
                }
            }
            assert forall|i: int| 0 <= i < wire@.len() implies (#[trigger] wire@[i] as u32) < 128 by {
                if i >= 9 && i < 9 + n {
                    assert(wire@[i] == credential_id@[i - 9]);
                } else if i > 9 + n {
                    assert(wire@[i] == material_text@[i - 10 - n]);
                }
            }
            is_ascii_chars_encode_utf8(wire@);
            assert(wire@.take(9) =~= SECRET_PREFIX@);
            assert(wire@.subrange(9, 37) =~= credential_id@);
            assert(wire@.skip(38) =~= material_text@);
            assert("sac_"@.is_prefix_of(credential_id@));
        }
        CredentialSecret { credential_id, wire: guard_text(wire) }
    }

    /// The raw secret.
    pub fn expose(&self) -> (secret: String)
        ensures
            secret@ == self.raw(),
    {
        guarded_text(&self.wire).to_string()
    }

    /// A salted verifier of this secret under `pepper`.
    pub fn argon2id_verifier(&self, pepper: &[u8]) -> (r: Result<String, CryptoError>)
        ensures
            match r {
                Ok(verifier) => {
                    &&& is_salted_verifier(self.raw(), pepper@, verifier@)
                    &&& secret_verifies(self.raw(), pepper@, verifier@)
                },
                Err(error) => {
                    ||| error is Random
                    ||| error is PasswordHash && peppered_input(self.raw(), pepper@).len()
                        > 0xffff_ffff
                },
            },
    {
        hash_secret(guarded_text(&self.wire), pepper)
    }

    /// The form of a secret in diagnostics.
    pub open spec fn debug_view(self) -> Seq<char> {
        struct_text(
            "CredentialSecret"@,
            seq![
                ("credential_id"@, quoted_text(self.credential_id@)),
                ("wire"@, redacted_text()),
            ],
        )
    }

    pub fn debug_text(&self) -> (r: String)
        ensures
            r@ == self.debug_view(),
    {
        let fields: Vec<(&str, String)> = vec![
            ("credential_id", quoted(self.credential_id.as_str())),
            ("wire", redacted()),
        ];
        proof {
            assert(field_views(fields@) =~= seq![
                ("credential_id"@, quoted_text(self.credential_id@)),
                ("wire"@, redacted_text()),
            ]);
        }
        debug_struct("CredentialSecret", &fields)
    }
}

/// The identifier of the credential that a secret claims to belong to.
pub fn credential_id(secret: &str) -> (r: Option<&str>)
    ensures
        match r {
            Some(id) => named_credential(secret@) == Some(id@),
            None => named_credential(secret@) is None,
        },
{
    proof {
        reveal_strlit("lenso_sa_");
    }
    let len: usize = secret.unicode_len();
    let prefix_len: usize = SECRET_PREFIX.unicode_len();
    if len < prefix_len || !same_text(secret.substring_char(0, prefix_len), SECRET_PREFIX) {
        proof {
            if SECRET_PREFIX@.is_prefix_of(secret@) {
                assert(secret@.subrange(0, prefix_len as int) =~= SECRET_PREFIX@);
            }
        }
        return None;
    }
    assert(SECRET_PREFIX@.is_prefix_of(secret@));
    let ghost rest = secret@.skip(prefix_len as int);
    let mut dot: usize = prefix_len;
    while dot < len && secret.get_char(dot) != '.'
        invariant
            prefix_len <= dot <= len,
            len == secret@.len(),
            rest == secret@.skip(prefix_len as int),
            forall|i: int| 0 <= i < dot - prefix_len ==> rest[i] != '.',
        decreases len - dot,
    {
        assert(rest[dot - prefix_len] != '.');
        dot += 1;
    }
    proof {
        rest.index_of_first_ensures('.');
    }
    if dot == len {
        assert(!rest.contains('.'));
        return None;
    }
    assert(rest[dot - prefix_len] == '.');
    let id: &str = secret.substring_char(prefix_len, dot);
    let material: &str = secret.substring_char(dot + 1, len);
    proof {
        assert(id@ =~= rest.take(dot - prefix_len));
        assert(material@ =~= rest.skip(dot - prefix_len + 1));
        if all_base64(id@) {
            is_ascii_chars_encode_utf8(id@);
        }
        if all_base64(material@) {
            is_ascii_chars_encode_utf8(material@);
        }
    }
    if is_base64_text(id) && is_base64_text(material) {
        let id_len: usize = text_len(id);
        let material_len: usize = text_len(material);
        if id_len >= 1 && id_len <= 128 && material_len >= 32 && material_len <= 128 {
            return Some(id);
        }
    }
    None
}

/// A verifier of `secret` under `pepper`, with a new random salt. The verifier
/// accepts the secret under that pepper.
pub fn hash_secret(secret: &str, pepper: &[u8]) -> (r: Result<String, CryptoError>)
    ensures
        match r {
            Ok(verifier) => {
                &&& is_salted_verifier(secret@, pepper@, verifier@)
                &&& secret_verifies(secret@, pepper@, verifier@)
            },
            Err(error) => {
                ||| error is Random
                ||| error is PasswordHash && peppered_input(secret@, pepper@).len() > 0xffff_ffff
            },
        },
{
    match random_bytes(16) {
        Ok(salt) => hash_secret_with_salt(secret, pepper, salt.as_slice()),
        Err(error) => Err(CryptoError::Random(error)),
    }
}

/// The verifier of `secret` under `pepper` with the given salt.
pub fn hash_secret_with_salt(secret: &str, pepper: &[u8], salt: &[u8]) -> (r: Result<
    String,
    CryptoError,
>)
    requires
        salt@.len() == 16,
    ensures
        match r {
            Ok(verifier) => {
                &&& verifier@ == argon2id_phc(peppered_input(secret@, pepper@), salt@)
                &&& "$argon2id$v=19$"@.is_prefix_of(verifier@)
                &&& secret_verifies(secret@, pepper@, verifier@)
                &&& peppered_input(secret@, pepper@).len() <= 0xffff_ffff
            },
            Err(error) => {
                &&& error is PasswordHash
                &&& peppered_input(secret@, pepper@).len() > 0xffff_ffff
            },
        },
{
    let input: SecretBytes = peppered(secret, pepper);
    match argon2_hash(guarded_bytes(&input), salt) {
        Ok(verifier) => {
            proof {
                reveal_strlit("1");
                reveal_with_fuel(bounded_lanes, 2);
            }
            Ok(verifier)
        },
        Err(error) => Err(CryptoError::PasswordHash(error)),
    }
}

/// Whether `verifier` is an Argon2id verifier that accepts `secret` under
/// `pepper`.
pub fn verify_secret(secret: &str, pepper: &[u8], verifier: &str) -> (accepted: bool)
    ensures
        accepted == secret_verifies(secret@, pepper@, verifier@),
{
    match phc_parts_of(verifier) {
        None => false,
        Some((algorithm, params)) => {
            if !same_text(algorithm.as_str(), "argon2id") || !has_bounded_lanes(&params) {
                return false;
            }
            let input: SecretBytes = peppered(secret, pepper);
            argon2_verify(guarded_bytes(&input), verifier)
        },
    }
}

/// The input that a verifier is computed over.
fn peppered(secret: &str, pepper: &[u8]) -> (input: SecretBytes)
    ensures
        secret_bytes(input) == peppered_input(secret@, pepper@),
{
    let text: &[u8] = secret.as_bytes();
    let capacity: usize = text.len().saturating_add(pepper.len()).saturating_add(1);
    let mut input: Vec<u8> = Vec::with_capacity(capacity);
    input.extend_from_slice(text);
    input.push(0);
    input.extend_from_slice(pepper);
    assert(input@ =~= peppered_input(secret@, pepper@));
    guard_bytes(input)
}

/// A pepper so long that no account secret can be hashed with it.
pub open spec fn pepper_too_long(pepper: Seq<u8>) -> bool {
    82 + pepper.len() > 0xffff_ffff
}

/// Diagnostics of two secrets with one identifier read alike, whatever the
/// secrets are, and show that something was left out.
pub proof fn credential_secret_debug_hides_the_wire(a: CredentialSecret, b: CredentialSecret)
    requires
        a.credential_id@ == b.credential_id@,
    ensures
        a.debug_view() == b.debug_view(),
        holds_text(a.debug_view(), "<redacted>"@),
{
    let fields = seq![
        ("credential_id"@, quoted_text(a.credential_id@)),
        ("wire"@, redacted_text()),
    ];
    redaction_is_shown("CredentialSecret"@, fields, 1);
}

/// The raw secret does not occur in its diagnostics.
pub proof fn credential_secret_debug_lacks_the_secret(secret: CredentialSecret)
    requires
        secret.is_well_formed(),
    ensures
        !holds_text(secret.debug_view(), secret.raw()),
{
    let id = secret.credential_id@;
    assert(plain(id) && !id.contains('.')) by {
        assert forall|i: int| 0 <= i < id.len() implies {
            &&& ' ' <= #[trigger] id[i] <= '~'
            &&& id[i] != '"' && id[i] != '\'' && id[i] != '\\' && id[i] != '.'
        } by {
            assert(base64_char(id[i]));
        }
    }
    redacted_text_is_quoted();
    reveal_strlit("CredentialSecret");
    reveal_strlit("credential_id");
    reveal_strlit("wire");
    reveal_strlit("<redacted>");
    reveal_strlit(": ");
    reveal_strlit(", ");
    reveal_strlit(" { ");
    reveal_strlit(" }");
    let first = ("credential_id"@, quoted_text(id));
    let second = ("wire"@, redacted_text());
    let fields = seq![first, second];
    assert(fields.drop_last() =~= seq![first]);
    assert(seq![first].drop_last() =~= Seq::empty());
    let none = fields_text(Seq::empty());
    let one = fields_text(seq![first]);
    let both = fields_text(fields);
    assert(one == none + Seq::<char>::empty() + first.0 + ": "@ + first.1);
    assert(both == one + ", "@ + second.0 + ": "@ + second.1);
    lemma_lacks_both(none, Seq::empty(), '.');
    lemma_lacks_both(none + Seq::<char>::empty(), first.0, '.');
    lemma_lacks_both(none + Seq::<char>::empty() + first.0, ": "@, '.');
    lemma_lacks_both(seq!['"'], id, '.');
    lemma_lacks_both(seq!['"'] + id, seq!['"'], '.');
    lemma_lacks_both(none + Seq::<char>::empty() + first.0 + ": "@, first.1, '.');
    lemma_lacks_both(one, ", "@, '.');
    lemma_lacks_both(one + ", "@, second.0, '.');
    lemma_lacks_both(one + ", "@ + second.0, ": "@, '.');
    lemma_lacks_both(one + ", "@ + second.0 + ": "@, second.1, '.');
    let name = "CredentialSecret"@;
    lemma_lacks_both(name, " { "@, '.');
    lemma_lacks_both(name + " { "@, both, '.');
    lemma_lacks_both(name + " { "@ + both, " }"@, '.');
    assert(secret.raw()[37] == '.');
    lemma_lacks(secret.debug_view(), secret.raw(), '.');
}

/// A receipt opens under a cipher that is derived anew from the same secret, with
/// the nonce and the data it was sealed with, and under no nonce of another
/// length.
pub proof fn receipts_open_after_a_restart(
    before: ReceiptCipher,
    after: ReceiptCipher,
    secret: Seq<u8>,
    nonce: Seq<u8>,
    ciphertext: Seq<u8>,
    aad: Seq<u8>,
    receipt: Seq<u8>,
    other_nonce: Seq<u8>,
)
    requires
        before.key() == sha256_digest(secret),
        after.key() == sha256_digest(secret),
        opened_receipt(before.key(), nonce, ciphertext, aad) == Some(receipt),
    ensures
        opened_receipt(after.key(), nonce, ciphertext, aad) == Some(receipt),
        other_nonce.len() != 12 ==> opened_receipt(
            after.key(),
            other_nonce,
            ciphertext,
            aad,
        ) is None,
{
}

/// Diagnostics of all ciphers read alike, whatever their keys are, and show that
/// something was left out.
pub proof fn receipt_cipher_debug_hides_the_key(a: ReceiptCipher, b: ReceiptCipher)
    ensures
        a.debug_view() == b.debug_view(),
        holds_text(a.debug_view(), "<redacted>"@),
{
    reveal_strlit("ReceiptCipher(<redacted>)");
    reveal_strlit("<redacted>");
    reveal_strlit("ReceiptCipher(");
    reveal_strlit(")");
    assert("ReceiptCipher(<redacted>)"@ =~= "ReceiptCipher("@ + "<redacted>"@ + ")"@);
    lemma_holds_middle("ReceiptCipher("@, "<redacted>"@, ")"@);
}

} // verus!
