//! The key service: envelope encryption and decryption under a named key.
//!
//! The transformation is a reversible encoding that stands in for a real
//! authenticated-encryption backend; it guards nothing by itself.

use vstd::prelude::*;
use vstd::string::StringExecFns;
use vstd::utf8::{decode_utf8, encode_utf8, valid_utf8};
use crate::error::{DreasError, DreasErrorView};
use crate::metadata::Metadata;
use crate::time::{current_time, Timestamp};

verus! {

/// The text that `base64::encode` gives for `data`: the standard alphabet
/// with padding.
pub uninterp spec fn base64_text(data: Seq<u8>) -> Seq<char>;

/// The bytes that `base64::decode` gives for `text`; nothing where it
/// refuses the text.
pub uninterp spec fn base64_data(text: Seq<char>) -> Option<Seq<u8>>;

/// The longest plaintext that the service takes: the encoded form of a
/// longer one could not be allocated.
pub open spec fn max_plaintext_len() -> nat {
    (usize::MAX / 4) as nat
}

/// Encodes with `base64::encode`. Trusted: the result is the named text of
/// `data`, and decoding that text gives `data` back, as the crate
/// documents of its standard engine. Longer inputs than the bound are left
/// out because the crate panics when the encoded length overflows.
#[allow(deprecated)]
#[verifier::external_body]
fn base64_encode(data: &[u8]) -> (text: String)
    requires
        data@.len() <= max_plaintext_len(),
    ensures
        text@ == base64_text(data@),
        base64_data(text@) == Some(data@),
{
    base64::encode(data)
}

/// Decodes with `base64::decode`. Trusted: `Ok` holds the named bytes of
/// `text`; `Err` comes exactly where the crate refuses the text, and then
/// holds the words of its error, of which nothing is claimed.
#[allow(deprecated)]
#[verifier::external_body]
fn base64_decode(text: &str) -> (r: Result<Vec<u8>, String>)
    ensures
        match r {
            Ok(data) => base64_data(text@) == Some(data@),
            Err(_) => base64_data(text@) is None,
        },
{
    match base64::decode(text) {
        Ok(data) => Ok(data),
        Err(e) => Err(e.to_string()),
    }
}

/// Reads bytes as text with `String::from_utf8`. Trusted: `Ok` comes
/// exactly for well-formed UTF-8 and holds the characters that the bytes
/// encode; `Err` holds the words of the standard library's error, of which
/// nothing is claimed.
#[verifier::external_body]
fn text_from_utf8(bytes: Vec<u8>) -> (r: Result<String, String>)
    ensures
        match r {
            Ok(text) => valid_utf8(bytes@) && text@ == decode_utf8(bytes@),
            Err(_) => !valid_utf8(bytes@),
        },
{
    match String::from_utf8(bytes) {
        Ok(text) => Ok(text),
        Err(e) => Err(e.to_string()),
    }
}

/// What encryption returns: the ciphertext with the key and the algorithm
/// that made it.
#[derive(Debug)]
pub struct EncryptionResult {
    pub ciphertext: Vec<u8>,
    pub key_id: String,
    pub algorithm: String,
    pub timestamp: Timestamp,
}

/// What decryption returns: the plaintext with the key that opened it.
#[derive(Debug)]
pub struct DecryptionResult {
    pub plaintext: Vec<u8>,
    pub key_id: String,
    pub timestamp: Timestamp,
}

/// The ciphertext of `plaintext`: the bytes of its encoded text.
pub open spec fn ciphertext_of(plaintext: Seq<u8>) -> Seq<u8> {
    encode_utf8(base64_text(plaintext))
}

/// The plaintext of `ciphertext`; nothing where the ciphertext is not text
/// or its text is not validly encoded.
pub open spec fn plaintext_of(ciphertext: Seq<u8>) -> Option<Seq<u8>> {
    if valid_utf8(ciphertext) {
        base64_data(decode_utf8(ciphertext))
    } else {
        None
    }
}

/// The name of the algorithm in every envelope.
pub open spec fn algorithm_name() -> Seq<char> {
    "GOOGLE_SYMMETRIC_ENCRYPTION"@
}

/// Whether two byte strings are equal.
pub fn same_bytes(a: &[u8], b: &[u8]) -> (same: bool)
    ensures
        same == (a@ == b@),
{
    if a.len() != b.len() {
        return false;
    }
    let mut i: usize = 0;
    while i < a.len()
        invariant
            i <= a.len(),
            a.len() == b.len(),
            forall|j: int| 0 <= j < i ==> a[j] == b[j],
        decreases a.len() - i,
    {
        if a[i] != b[i] {
            return false;
        }
        i += 1;
    }
    assert(a@ =~= b@);
    true
}

/// A copy of a byte string.
pub fn copy_bytes(a: &[u8]) -> (v: Vec<u8>)
    ensures
        v@ == a@,
{
    let mut v: Vec<u8> = Vec::new();
    let mut i: usize = 0;
    while i < a.len()
        invariant
            i <= a.len(),
            v@ == a@.take(i as int),
        decreases a.len() - i,
    {
        v.push(a[i]);
        assert(v@ =~= a@.take(i as int + 1));
        i += 1;
    }
    assert(a@.take(a.len() as int) =~= a@);
    v
}

/// The envelope around an encoded text: its bytes, under `key_id` and the
/// algorithm's name, stamped `timestamp`.
pub fn encryption_envelope(key_id: String, encoded: String, timestamp: Timestamp) -> (r:
    EncryptionResult)
    ensures
        r.ciphertext@ == encode_utf8(encoded@),
        r.key_id@ == key_id@,
        r.algorithm@ == algorithm_name(),
        r.timestamp == timestamp,
{
    let ciphertext = copy_bytes(encoded.as_str().as_bytes());
    EncryptionResult {
        ciphertext,
        key_id,
        algorithm: "GOOGLE_SYMMETRIC_ENCRYPTION".to_string(),
        timestamp,
    }
}

/// The outcome of decryption once the ciphertext was read as text: the
/// decoded bytes under `key_id`, or a decryption error with the decoder's
/// words.
pub fn decryption_outcome(key_id: String, decoded: Result<Vec<u8>, String>, timestamp: Timestamp)
    -> (r: Result<DecryptionResult, DreasError>)
    ensures
        match decoded {
            Ok(data) => r is Ok && r->Ok_0.plaintext@ == data@ && r->Ok_0.key_id@ == key_id@
                && r->Ok_0.timestamp == timestamp,
            Err(words) => r is Err && r->Err_0@ == DreasErrorView::KmsDecryption(
                "Failed to decode ciphertext: "@ + words@,
            ),
        },
{
    match decoded {
        Ok(plaintext) => Ok(DecryptionResult { plaintext, key_id, timestamp }),
        Err(words) => {
            let mut message = String::from_str("Failed to decode ciphertext: ");
            message.append(words.as_str());
            Err(DreasError::KmsDecryption(message))
        },
    }
}

/// The error for a ciphertext that is no text at all.
pub fn not_text_error(words: String) -> (e: DreasError)
    ensures
        e@ == DreasErrorView::KmsDecryption("Invalid ciphertext: "@ + words@),
{
    let mut message = String::from_str("Invalid ciphertext: ");
    message.append(words.as_str());
    DreasError::KmsDecryption(message)
}

/// Encrypts `plaintext` under the key named `key_id`. Decrypting the
/// ciphertext gives the plaintext back.
pub fn encrypt_with_key(key_id: &String, plaintext: &[u8]) -> (r: Result<
    EncryptionResult,
    DreasError,
>)
    requires
        plaintext@.len() <= max_plaintext_len(),
    ensures
        r is Ok,
        r->Ok_0.ciphertext@ == ciphertext_of(plaintext@),
        r->Ok_0.key_id@ == key_id@,
        r->Ok_0.algorithm@ == algorithm_name(),
        plaintext_of(r->Ok_0.ciphertext@) == Some(plaintext@),
{
    let encoded = base64_encode(plaintext);
    proof {
        vstd::utf8::encode_utf8_valid_utf8(encoded@);
        vstd::utf8::encode_utf8_decode_utf8(encoded@);
    }
    Ok(encryption_envelope(key_id.clone(), encoded, current_time()))
}

/// Decrypts `ciphertext` under the key named `key_id`. It fails with a
/// decryption error exactly where the ciphertext is not validly encoded:
/// "Invalid ciphertext: ..." where it is no text, "Failed to decode
/// ciphertext: ..." where its text is refused.
pub fn decrypt_with_key(key_id: &String, ciphertext: &[u8]) -> (r: Result<
    DecryptionResult,
    DreasError,
>)
    ensures
        match r {
            Ok(d) => plaintext_of(ciphertext@) == Some(d.plaintext@) && d.key_id@ == key_id@,
            Err(e) => plaintext_of(ciphertext@) is None && e@ is KmsDecryption && (if valid_utf8(
                ciphertext@,
            ) {
                "Failed to decode ciphertext: "@.is_prefix_of(e@.detail())
            } else {
                "Invalid ciphertext: "@.is_prefix_of(e@.detail())
            }),
        },
{
    let text = match text_from_utf8(copy_bytes(ciphertext)) {
        Ok(text) => text,
        Err(words) => {
            return Err(not_text_error(words));
        },
    };
    let decoded = base64_decode(text.as_str());
    decryption_outcome(key_id.clone(), decoded, current_time())
}

/// The text that `ciphertext` decrypts to; nothing where it does not
/// decrypt or where its plaintext is no text.
pub open spec fn plaintext_text_of(ciphertext: Seq<u8>) -> Option<Seq<char>> {
    match plaintext_of(ciphertext) {
        Some(bytes) => if valid_utf8(bytes) {
            Some(decode_utf8(bytes))
        } else {
            None
        },
        None => None,
    }
}

/// Decrypts `ciphertext` under the key named `key_id` and reads the
/// plaintext as text. It fails with a decryption error exactly where the
/// ciphertext does not decrypt or its plaintext is no text.
pub fn decrypt_text_with_key(key_id: &String, ciphertext: &[u8]) -> (r: Result<String, DreasError>)
    ensures
        match r {
            Ok(text) => plaintext_text_of(ciphertext@) == Some(text@),
            Err(e) => plaintext_text_of(ciphertext@) is None && e@ is KmsDecryption,
        },
{
    let decrypted = match decrypt_with_key(key_id, ciphertext) {
        Ok(decrypted) => decrypted,
        Err(e) => {
            return Err(e);
        },
    };
    match text_from_utf8(decrypted.plaintext) {
        Ok(text) => Ok(text),
        Err(words) => {
            let mut message = String::from_str("Decrypted data is not text: ");
            message.append(words.as_str());
            Err(DreasError::KmsDecryption(message))
        },
    }
}

/// A client of the key service, bound to one key by the five parts of its
/// name.
#[derive(Debug)]
pub struct KmsClient {
    project_id: String,
    location: String,
    key_ring: String,
    key_name: String,
    key_version: String,
    client_data: Metadata,
}

/// The mathematical value of a [`KmsClient`]: the parts of its key's name.
pub struct KmsClientView {
    pub project_id: Seq<char>,
    pub location: Seq<char>,
    pub key_ring: Seq<char>,
    pub key_name: Seq<char>,
    pub key_version: Seq<char>,
}

impl KmsClientView {
    /// The fully qualified name of the key.
    pub open spec fn key_id(self) -> Seq<char> {
        "projects/"@ + self.project_id + "/locations/"@ + self.location + "/keyRings/"@
            + self.key_ring + "/cryptoKeys/"@ + self.key_name + "/cryptoKeyVersions/"@
            + self.key_version
    }

    /// The complaint about the first part that is empty; nothing where
    /// every part is given.
    pub open spec fn config_fault(self) -> Option<Seq<char>> {
        if self.project_id.len() == 0 {
            Some("Project ID cannot be empty"@)
        } else if self.location.len() == 0 {
            Some("Location cannot be empty"@)
        } else if self.key_ring.len() == 0 {
            Some("Key ring cannot be empty"@)
        } else if self.key_name.len() == 0 {
            Some("Key name cannot be empty"@)
        } else if self.key_version.len() == 0 {
            Some("Key version cannot be empty"@)
        } else {
            None
        }
    }
}

impl View for KmsClient {
    type V = KmsClientView;

    closed spec fn view(&self) -> KmsClientView {
        KmsClientView {
            project_id: self.project_id@,
            location: self.location@,
            key_ring: self.key_ring@,
            key_name: self.key_name@,
            key_version: self.key_version@,
        }
    }
}

impl Clone for KmsClient {
    fn clone(&self) -> (r: Self)
        ensures
            r@ == self@,
    {
        KmsClient {
            project_id: self.project_id.clone(),
            location: self.location.clone(),
            key_ring: self.key_ring.clone(),
            key_name: self.key_name.clone(),
            key_version: self.key_version.clone(),
            client_data: self.client_data.clone(),
        }
    }
}

impl KmsClient {
    /// A client for the key with the given name parts.
    pub fn new(
        project_id: String,
        location: String,
        key_ring: String,
        key_name: String,
        key_version: String,
    ) -> (client: Self)
        ensures
            client@ == (KmsClientView {
                project_id: project_id@,
                location: location@,
                key_ring: key_ring@,
                key_name: key_name@,
                key_version: key_version@,
            }),
    {
        KmsClient {
            project_id,
            location,
            key_ring,
            key_name,
            key_version,
            client_data: Metadata::new(),
        }
    }

    /// The fully qualified name of the client's key.
    pub fn get_key_id(&self) -> (id: String)
        ensures
            id@ == self@.key_id(),
    {
        let mut id = String::from_str("projects/");
        id.append(self.project_id.as_str());
        id.append("/locations/");
        id.append(self.location.as_str());
        id.append("/keyRings/");
        id.append(self.key_ring.as_str());
        id.append("/cryptoKeys/");
        id.append(self.key_name.as_str());
        id.append("/cryptoKeyVersions/");
        id.append(self.key_version.as_str());
        id
    }

    /// Checks that every part of the key's name is given. The error names
    /// the first part that is empty.
    pub fn validate_config(&self) -> (r: Result<(), DreasError>)
        ensures
            match r {
                Ok(_) => self@.config_fault() is None,
                Err(e) => self@.config_fault() == Some(e@.detail()) && e@ is Configuration,
            },
    {
        if self.project_id.as_str().is_empty() {
            return Err(DreasError::Configuration("Project ID cannot be empty".to_string()));
        }
        if self.location.as_str().is_empty() {
            return Err(DreasError::Configuration("Location cannot be empty".to_string()));
        }
        if self.key_ring.as_str().is_empty() {
            return Err(DreasError::Configuration("Key ring cannot be empty".to_string()));
        }
        if self.key_name.as_str().is_empty() {
            return Err(DreasError::Configuration("Key name cannot be empty".to_string()));
        }
        if self.key_version.as_str().is_empty() {
            return Err(DreasError::Configuration("Key version cannot be empty".to_string()));
        }
        Ok(())
    }

    /// Encrypts `plaintext` under the client's key. It always succeeds,
    /// and decrypting the ciphertext gives the plaintext back.
    pub fn encrypt(&self, plaintext: &[u8]) -> (r: Result<EncryptionResult, DreasError>)
        requires
            plaintext@.len() <= max_plaintext_len(),
        ensures
            r is Ok,
            r->Ok_0.ciphertext@ == ciphertext_of(plaintext@),
            r->Ok_0.key_id@ == self@.key_id(),
            r->Ok_0.algorithm@ == algorithm_name(),
            plaintext_of(r->Ok_0.ciphertext@) == Some(plaintext@),
    {
        let key_id = self.get_key_id();
        encrypt_with_key(&key_id, plaintext)
    }

    /// Decrypts `ciphertext` under the client's key. It fails with a
    /// decryption error exactly where the ciphertext is not validly
    /// encoded.
    pub fn decrypt(&self, ciphertext: &[u8]) -> (r: Result<DecryptionResult, DreasError>)
        ensures
            match r {
                Ok(d) => plaintext_of(ciphertext@) == Some(d.plaintext@) && d.key_id@
                    == self@.key_id(),
                Err(e) => plaintext_of(ciphertext@) is None && e@ is KmsDecryption && (
                if valid_utf8(ciphertext@) {
                    "Failed to decode ciphertext: "@.is_prefix_of(e@.detail())
                } else {
                    "Invalid ciphertext: "@.is_prefix_of(e@.detail())
                }),
            },
    {
        let key_id = self.get_key_id();
        decrypt_with_key(&key_id, ciphertext)
    }

    /// The health probe: checks the configuration, then sends a fixed probe
    /// through encryption and decryption. It succeeds exactly for a valid
    /// configuration.
    pub fn test_connection(&self) -> (r: Result<(), DreasError>)
        ensures
            match r {
                Ok(_) => self@.config_fault() is None,
                Err(e) => self@.config_fault() == Some(e@.detail()) && e@ is Configuration,
            },
    {
        match self.validate_config() {
            Ok(_) => {},
            Err(e) => {
                return Err(e);
            },
        }
        let probe: Vec<u8> = vec![116u8, 101u8, 115u8, 116u8, 32u8, 100u8, 97u8, 116u8, 97u8];
        let encrypted = match self.encrypt(probe.as_slice()) {
            Ok(encrypted) => encrypted,
            Err(e) => {
                return Err(e);
            },
        };
        let decrypted = match self.decrypt(encrypted.ciphertext.as_slice()) {
            Ok(decrypted) => decrypted,
            Err(e) => {
                return Err(e);
            },
        };
        if !same_bytes(probe.as_slice(), decrypted.plaintext.as_slice()) {
            return Err(
                DreasError::KmsEncryption("Encryption/decryption test failed".to_string()),
            );
        }
        Ok(())
    }
}

} // verus!
