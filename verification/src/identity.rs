//! The identity of a device: its signing key, its certificate and its name.

use crate::digest::{blake3_digest, blake3_hash};
use crate::error::TransferError;
use crate::ids::Uuid;
use crate::text::{decimal, to_decimal, trim, unicode_trim};
use ed25519_dalek::Signer;
use rand::RngCore;
use vstd::prelude::*;

verus! {

/// The setting under which the signing key is kept.
pub const SIGNING_KEY_SETTING: &'static str = "transfer.identity.ed25519_signing_key";

/// The setting under which the name of the device is kept.
pub const DEVICE_NAME_SETTING: &'static str = "transfer.identity.device_name";

/// The setting under which the certificate is kept.
pub const TLS_CERTIFICATE_SETTING: &'static str = "transfer.identity.tls_certificate_der";

/// The setting under which the key of the certificate is kept.
pub const TLS_PRIVATE_KEY_SETTING: &'static str = "transfer.identity.tls_private_key_der";

/// The host name in the certificate of every device.
pub const CERTIFICATE_NAME: &'static str = "fastsync.local";

/// The Ed25519 public key that belongs to a secret key.
pub uninterp spec fn ed25519_public_key(secret_key: Seq<u8>) -> Seq<u8>;

/// The Ed25519 signature of a message under a secret key.
pub uninterp spec fn ed25519_signature(secret_key: Seq<u8>, message: Seq<u8>) -> Seq<u8>;

/// `ed25519_dalek::SigningKey::verifying_key`: the public key that belongs to a
/// secret key. It depends on the secret key alone.
#[verifier::external_body]
fn derive_public_key(secret_key: &[u8; 32]) -> (public_key: [u8; 32])
    ensures
        public_key@ == ed25519_public_key(secret_key@),
{
    ed25519_dalek::SigningKey::from_bytes(secret_key).verifying_key().to_bytes()
}

/// `ed25519_dalek::SigningKey::sign`: the signature of a message under a secret
/// key. Ed25519 signatures use no randomness, so it depends on these alone.
#[verifier::external_body]
fn sign_message(secret_key: &[u8; 32], message: &[u8]) -> (signature: [u8; 64])
    ensures
        signature@ == ed25519_signature(secret_key@, message@),
{
    ed25519_dalek::SigningKey::from_bytes(secret_key).sign(message).to_bytes()
}

/// `ed25519_dalek::SigningKey::generate` over the random numbers of the system:
/// a fresh secret key, of which nothing more is known.
#[verifier::external_body]
fn generate_secret_key() -> (secret_key: [u8; 32])
{
    ed25519_dalek::SigningKey::generate(&mut rand::rngs::OsRng).to_bytes()
}

/// `rcgen::generate_simple_self_signed`: a certificate for a host name under a
/// fresh key, and that key, both in DER and so never empty; or how the failure
/// reads. Nothing more is known of them.
#[verifier::external_body]
fn generate_certificate(name: &str) -> (generated: Result<(Vec<u8>, Vec<u8>), String>)
    ensures
        generated matches Ok((certificate, key)) ==> certificate@.len() > 0 && key@.len() > 0,
{
    match rcgen::generate_simple_self_signed(vec![name.to_owned()]) {
        Ok(certified) => Ok((certified.cert.der().to_vec(), certified.key_pair.serialize_der())),
        Err(error) => Err(error.to_string()),
    }
}

/// `rand::rngs::OsRng::fill_bytes`: thirty-two random bytes.
#[verifier::external_body]
fn random_bytes() -> (bytes: [u8; 32])
{
    let mut bytes = [0u8; 32];
    rand::rngs::OsRng.fill_bytes(&mut bytes);
    bytes
}

/// `rand::rngs::OsRng::next_u64`: a random number.
#[verifier::external_body]
fn random_number() -> (number: u64)
{
    rand::rngs::OsRng.next_u64()
}

/// A number that a peer cannot foresee.
pub fn fresh_nonce() -> (nonce: Vec<u8>)
    ensures
        nonce@.len() == 32,
{
    let bytes = random_bytes();
    let mut nonce: Vec<u8> = Vec::new();
    nonce.extend_from_slice(&bytes);
    nonce
}

/// The number that a probe asks its peer to repeat.
pub fn fresh_probe() -> (nonce: u64)
{
    random_number()
}

/// The bytes of a device identifier: the beginning of a digest, marked as an
/// identifier of a form of its own.
pub open spec fn stamped(digest: Seq<u8>) -> Seq<u8> {
    digest.take(16).update(6, (digest[6] & 0x0f) | 0x80).update(8, (digest[8] & 0x3f) | 0x80)
}

/// The device that a public key identifies.
pub open spec fn device_id_of(public_key: Seq<u8>) -> Uuid {
    Uuid { bits: crate::bytes::from_be(stamped(blake3_digest(public_key))) as u128 }
}

/// Derives a stable identifier from a public key.
pub fn device_id_from_public_key(public_key: &[u8; 32]) -> (id: Uuid)
    ensures
        id == device_id_of(public_key@),
        id.spec_bytes() == stamped(blake3_digest(public_key@)),
{
    let digest = blake3_hash(public_key);
    let mut bytes: [u8; 16] = [0u8;16];
    let mut i: usize = 0;
    while i < 16
        invariant
            i <= 16,
            forall|k: int| 0 <= k < i ==> bytes@[k] == digest@[k],
        decreases 16 - i,
    {
        bytes[i] = digest[i];
        i += 1;
    }
    bytes[6] = (bytes[6] & 0x0f) | 0x80;
    bytes[8] = (bytes[8] & 0x3f) | 0x80;
    assert(bytes@ =~= stamped(digest@));
    let id = Uuid::from_bytes(&bytes);
    proof {
        crate::bytes::law_u128_roundtrip(id.bits);
    }
    id
}

/// The identifier of every device carries the marks of its form.
pub proof fn law_device_ids_are_marked(digest: Seq<u8>)
    requires
        digest.len() == 32,
    ensures
        stamped(digest)[6] >> 4 == 8,
        stamped(digest)[8] & 0xc0 == 0x80,
{
    let (a, b) = (digest[6], digest[8]);
    assert(((a & 0x0f) | 0x80) >> 4 == 8u8) by (bit_vector);
    assert(((b & 0x3f) | 0x80) & 0xc0 == 0x80u8) by (bit_vector);
}

/// What an earlier run has stored of the identity.
pub struct StoredIdentity {
    pub signing_key: Option<Vec<u8>>,
    pub certificate: Option<Vec<u8>>,
    pub private_key: Option<Vec<u8>>,
}

/// What is to be stored because it is new: the signing key, and the certificate
/// with its key.
pub struct IdentityChanges {
    pub signing_key: Option<[u8; 32]>,
    pub certificate: Option<(Vec<u8>, Vec<u8>)>,
}

impl IdentityChanges {
    /// Nothing is new.
    pub open spec fn is_empty(self) -> bool {
        self.signing_key is None && self.certificate is None
    }

    /// What is stored once the changes are: they take the place of what was there,
    /// and the rest stays.
    pub open spec fn turn(self, before: StoredIdentity, after: StoredIdentity) -> bool {
        &&& match self.signing_key {
            Some(key) => bytes_of(after.signing_key) == Some(key@),
            None => bytes_of(after.signing_key) == bytes_of(before.signing_key),
        }
        &&& match self.certificate {
            Some((certificate, key)) => bytes_of(after.certificate) == Some(certificate@)
                && bytes_of(after.private_key) == Some(key@),
            None => bytes_of(after.certificate) == bytes_of(before.certificate) && bytes_of(
                after.private_key,
            ) == bytes_of(before.private_key),
        }
    }
}

/// What a setting holds.
pub open spec fn bytes_of(setting: Option<Vec<u8>>) -> Option<Seq<u8>> {
    match setting {
        Some(bytes) => Some(bytes@),
        None => None,
    }
}

#[derive(Clone)]
pub struct DeviceIdentity {
    id: Uuid,
    name: String,
    secret_key: [u8; 32],
    public_key: [u8; 32],
    tls_certificate_der: Vec<u8>,
    tls_private_key_der: Vec<u8>,
    certificate_fingerprint: [u8; 32],
}

/// A certificate and its key that an earlier run has stored.
pub open spec fn has_certificate(stored: StoredIdentity) -> bool {
    &&& stored.certificate matches Some(certificate) && certificate@.len() > 0
    &&& stored.private_key matches Some(key) && key@.len() > 0
}

/// What loading an identity comes to, and what is to be stored of it even where it
/// fails. Whatever is stored is kept, and what is made anew is a change.
pub open spec fn is_loaded(
    stored: StoredIdentity,
    device_name: Seq<char>,
    result: Result<DeviceIdentity, TransferError>,
    changes: IdentityChanges,
) -> bool {
    let blank = unicode_trim(device_name).len() == 0;
    let malformed = stored.signing_key matches Some(key) && key@.len() != 32;
    &&& blank || malformed ==> changes.is_empty()
    &&& !blank && !malformed ==> (changes.signing_key is None <==> stored.signing_key is Some)
    &&& match result {
        Ok(identity) => {
            &&& !blank && !malformed
            &&& identity.wf()
            &&& identity.spec_name() == device_name
            &&& match stored.signing_key {
                Some(key) => identity.spec_secret_key() == key@,
                None => identity.spec_secret_key() == changes.signing_key->0@,
            }
            &&& has_certificate(stored) ==> {
                &&& identity.spec_certificate() == stored.certificate->0@
                &&& identity.spec_private_key() == stored.private_key->0@
                &&& changes.certificate is None
            }
            &&& !has_certificate(stored) ==> {
                &&& changes.certificate matches Some((certificate, key)) && {
                    &&& identity.spec_certificate() == certificate@
                    &&& identity.spec_private_key() == key@
                    &&& certificate@.len() > 0
                    &&& key@.len() > 0
                }
            }
        },
        Err(TransferError::Identity(message)) => if blank {
            message@ == "device name must not be empty"@
        } else {
            &&& malformed
            &&& message@ == "stored Ed25519 signing key has "@ + decimal(
                stored.signing_key->0@.len(),
            ) + " bytes, expected 32"@
        },
        Err(TransferError::Tls(_)) => {
            &&& !blank && !malformed
            &&& !has_certificate(stored)
            &&& changes.certificate is None
        },
        Err(_) => false,
    }
}

fn copy_32(bytes: &Vec<u8>) -> (copy: [u8; 32])
    requires
        bytes@.len() == 32,
    ensures
        copy@ == bytes@,
{
    let mut copy: [u8; 32] = [0u8;32];
    let mut i: usize = 0;
    while i < 32
        invariant
            i <= 32,
            bytes@.len() == 32,
            forall|k: int| 0 <= k < i ==> copy@[k] == bytes@[k],
        decreases 32 - i,
    {
        copy[i] = bytes[i];
        i += 1;
    }
    assert(copy@ =~= bytes@);
    copy
}

impl DeviceIdentity {
    pub closed spec fn spec_id(&self) -> Uuid {
        self.id
    }

    pub closed spec fn spec_name(&self) -> Seq<char> {
        self.name@
    }

    pub closed spec fn spec_secret_key(&self) -> Seq<u8> {
        self.secret_key@
    }

    pub closed spec fn spec_public_key(&self) -> Seq<u8> {
        self.public_key@
    }

    pub closed spec fn spec_certificate(&self) -> Seq<u8> {
        self.tls_certificate_der@
    }

    pub closed spec fn spec_private_key(&self) -> Seq<u8> {
        self.tls_private_key_der@
    }

    pub closed spec fn spec_fingerprint(&self) -> Seq<u8> {
        self.certificate_fingerprint@
    }

    /// What the identity shows follows from its keys and its certificate.
    pub open spec fn wf(&self) -> bool {
        &&& self.spec_public_key() == ed25519_public_key(self.spec_secret_key())
        &&& self.spec_id() == device_id_of(self.spec_public_key())
        &&& self.spec_fingerprint() == blake3_digest(self.spec_certificate())
        &&& self.spec_public_key().len() == 32
        &&& self.spec_fingerprint().len() == 32
    }

    /// The identity that a name, a signing key and a certificate make up.
    pub fn from_parts(
        name: String,
        secret_key: [u8; 32],
        tls_certificate_der: Vec<u8>,
        tls_private_key_der: Vec<u8>,
    ) -> (identity: Self)
        ensures
            identity.wf(),
            identity.spec_name() == name@,
            identity.spec_secret_key() == secret_key@,
            identity.spec_certificate() == tls_certificate_der@,
            identity.spec_private_key() == tls_private_key_der@,
    {
        let public_key = derive_public_key(&secret_key);
        let id = device_id_from_public_key(&public_key);
        let certificate_fingerprint = blake3_hash(&tls_certificate_der);
        DeviceIdentity {
            id,
            name,
            secret_key,
            public_key,
            tls_certificate_der,
            tls_private_key_der,
            certificate_fingerprint,
        }
    }

    /// The identity under a certificate that was just made, which is to be stored
    /// with it; or how the making failed. `new_key` is the signing key, where it
    /// was just made too: it is to be stored either way.
    pub fn with_certificate(
        name: String,
        secret_key: [u8; 32],
        new_key: Option<[u8; 32]>,
        made: Result<(Vec<u8>, Vec<u8>), String>,
    ) -> (loaded: (Result<Self, TransferError>, IdentityChanges))
        ensures
            loaded.1.signing_key == new_key,
            match (made, loaded.0) {
                (Ok((certificate, key)), Ok(identity)) => {
                    &&& identity.wf()
                    &&& identity.spec_name() == name@
                    &&& identity.spec_secret_key() == secret_key@
                    &&& identity.spec_certificate() == certificate@
                    &&& identity.spec_private_key() == key@
                    &&& loaded.1.certificate matches Some((stored, stored_key)) && stored@
                        == certificate@ && stored_key@ == key@
                },
                (Err(message), Err(error)) => error == TransferError::Tls(message)
                    && loaded.1.certificate is None,
                _ => false,
            },
    {
        match made {
            Err(message) => {
                let changes = IdentityChanges { signing_key: new_key, certificate: None };
                (Err(TransferError::Tls(message)), changes)
            },
            Ok((certificate, key)) => {
                let mut certificate_copy: Vec<u8> = Vec::new();
                certificate_copy.extend_from_slice(&certificate);
                assert(certificate_copy@ =~= certificate@);
                let mut key_copy: Vec<u8> = Vec::new();
                key_copy.extend_from_slice(&key);
                assert(key_copy@ =~= key@);
                let identity = Self::from_parts(name, secret_key, certificate, key);
                let changes = IdentityChanges {
                    signing_key: new_key,
                    certificate: Some((certificate_copy, key_copy)),
                };
                (Ok(identity), changes)
            },
        }
    }

    /// The identity that was stored, or a new one where nothing was. Whatever
    /// is stored is kept, and what is made anew is to be stored, also where the
    /// loading fails. The making of a certificate may fail; nothing else fails for
    /// a name that is not blank and a stored key of the right length.
    pub fn load_or_create(stored: StoredIdentity, device_name: String) -> (loaded: (
        Result<Self, TransferError>,
        IdentityChanges,
    ))
        ensures
            is_loaded(stored, device_name@, loaded.0, loaded.1),
    {
        if trim(device_name.as_str()).as_str().is_empty() {
            let error = TransferError::Identity("device name must not be empty".to_owned());
            return (Err(error), IdentityChanges { signing_key: None, certificate: None });
        }
        let (secret_key, new_key) = match &stored.signing_key {
            Some(encoded) => {
                if encoded.len() != 32 {
                    let mut message = "stored Ed25519 signing key has ".to_owned();
                    message.append(to_decimal(encoded.len() as u64).as_str());
                    message.append(" bytes, expected 32");
                    let changes = IdentityChanges { signing_key: None, certificate: None };
                    return (Err(TransferError::Identity(message)), changes);
                }
                (copy_32(encoded), None)
            },
            None => {
                let key = generate_secret_key();
                (key, Some(key))
            },
        };
        let usable = match (&stored.certificate, &stored.private_key) {
            (Some(certificate), Some(key)) => certificate.len() > 0 && key.len() > 0,
            _ => false,
        };
        if usable {
            if let Some(certificate) = stored.certificate {
                if let Some(key) = stored.private_key {
                    let identity = Self::from_parts(device_name, secret_key, certificate, key);
                    let changes = IdentityChanges { signing_key: new_key, certificate: None };
                    return (Ok(identity), changes);
                }
            }
        }
        let made = generate_certificate(CERTIFICATE_NAME);
        Self::with_certificate(device_name, secret_key, new_key, made)
    }

    pub fn id(&self) -> (id: Uuid)
        ensures
            id == self.spec_id(),
    {
        self.id
    }

    pub fn name(&self) -> (name: &str)
        ensures
            name@ == self.spec_name(),
    {
        self.name.as_str()
    }

    pub fn public_key(&self) -> (key: [u8; 32])
        ensures
            key@ == self.spec_public_key(),
    {
        self.public_key
    }

    pub fn certificate_fingerprint(&self) -> (fingerprint: [u8; 32])
        ensures
            fingerprint@ == self.spec_fingerprint(),
    {
        self.certificate_fingerprint
    }

    /// The same under its short name.
    pub fn cert_fingerprint(&self) -> (fingerprint: [u8; 32])
        ensures
            fingerprint@ == self.spec_fingerprint(),
    {
        self.certificate_fingerprint
    }

    pub fn tls_certificate_der(&self) -> (certificate: &[u8])
        ensures
            certificate@ == self.spec_certificate(),
    {
        self.tls_certificate_der.as_slice()
    }

    pub fn tls_private_key_der(&self) -> (key: &[u8])
        ensures
            key@ == self.spec_private_key(),
    {
        self.tls_private_key_der.as_slice()
    }

    /// The signature of a message under the key of the device.
    pub fn sign(&self, message: &[u8]) -> (signature: Vec<u8>)
        ensures
            signature@ == ed25519_signature(self.spec_secret_key(), message@),
            signature@.len() == 64,
    {
        let bytes = sign_message(&self.secret_key, message);
        let mut signature: Vec<u8> = Vec::new();
        signature.extend_from_slice(&bytes);
        assert(signature@ =~= bytes@);
        signature
    }
}

/// An identity persists: once what the first load has made is stored, a second one
/// succeeds under any name that is not blank, makes nothing anew and gives the same
/// device, with the same certificate.
pub proof fn law_identity_is_persistent(
    before: StoredIdentity,
    name: Seq<char>,
    first: Result<DeviceIdentity, TransferError>,
    made: IdentityChanges,
    after: StoredIdentity,
    other_name: Seq<char>,
    second: Result<DeviceIdentity, TransferError>,
    changes: IdentityChanges,
)
    requires
        is_loaded(before, name, first, made),
        first is Ok,
        made.turn(before, after),
        is_loaded(after, other_name, second, changes),
        unicode_trim(other_name).len() > 0,
    ensures
        second is Ok,
        changes.is_empty(),
        second->Ok_0.spec_id() == first->Ok_0.spec_id(),
        second->Ok_0.spec_public_key() == first->Ok_0.spec_public_key(),
        second->Ok_0.spec_fingerprint() == first->Ok_0.spec_fingerprint(),
        second->Ok_0.spec_certificate() == first->Ok_0.spec_certificate(),
        second->Ok_0.spec_private_key() == first->Ok_0.spec_private_key(),
        second->Ok_0.spec_secret_key() == first->Ok_0.spec_secret_key(),
{
    if let Some(key) = made.signing_key {
        assert(key@.len() == 32);
    }
    assert(has_certificate(after));
}

/// A new signing key outlives a certificate that could not be made: once it is
/// stored, any later identity is that of the same device.
pub proof fn law_signing_key_outlives_a_failure(
    before: StoredIdentity,
    name: Seq<char>,
    failed: Result<DeviceIdentity, TransferError>,
    made: IdentityChanges,
    after: StoredIdentity,
    other_name: Seq<char>,
    second: Result<DeviceIdentity, TransferError>,
    changes: IdentityChanges,
)
    requires
        is_loaded(before, name, failed, made),
        made.signing_key is Some,
        made.turn(before, after),
        is_loaded(after, other_name, second, changes),
        second is Ok,
    ensures
        second->Ok_0.spec_secret_key() == made.signing_key->0@,
        second->Ok_0.spec_public_key() == ed25519_public_key(made.signing_key->0@),
        changes.signing_key is None,
{
}

/// An identifier is the first sixteen bytes of the digest of the key but for its marks:
/// four bits of one byte and two of another.
pub proof fn law_device_ids_keep_the_digest(digest: Seq<u8>, i: int)
    requires
        digest.len() == 32,
        0 <= i < 16,
    ensures
        stamped(digest).len() == 16,
        i != 6 && i != 8 ==> stamped(digest)[i] == digest[i],
        stamped(digest)[6] & 0x0f == digest[6] & 0x0f,
        stamped(digest)[8] & 0x3f == digest[8] & 0x3f,
{
    let (a, b) = (digest[6], digest[8]);
    assert(((a & 0x0f) | 0x80) & 0x0f == a & 0x0f) by (bit_vector);
    assert(((b & 0x3f) | 0x80) & 0x3f == b & 0x3f) by (bit_vector);
}

/// When an identity cannot be had: under a name of nothing but white space, or with a
/// stored key of another length, neither of which changes anything; and where a
/// certificate is needed and cannot be made. A stored key or certificate is never made
/// anew.
pub proof fn law_when_identities_are_had(
    stored: StoredIdentity,
    device_name: Seq<char>,
    result: Result<DeviceIdentity, TransferError>,
    changes: IdentityChanges,
)
    requires
        is_loaded(stored, device_name, result, changes),
    ensures
        ({
            let unnamed = unicode_trim(device_name).len() == 0;
            let damaged = stored.signing_key is Some && stored.signing_key->0@.len() != 32;
            let certified = stored.certificate is Some && stored.certificate->0@.len() > 0
                && stored.private_key is Some && stored.private_key->0@.len() > 0;
            &&& result is Err && result->Err_0 is Identity <==> unnamed || damaged
            &&& unnamed || damaged ==> changes.signing_key is None && changes.certificate is None
            &&& result is Err && !unnamed && !damaged ==> result->Err_0 is Tls && !certified
            &&& stored.signing_key is Some ==> changes.signing_key is None
            &&& result is Ok ==> {
                &&& result->Ok_0.spec_name() == device_name
                &&& result->Ok_0.spec_id() == device_id_of(result->Ok_0.spec_public_key())
                &&& changes.certificate is None <==> certified
                &&& changes.signing_key is None <==> stored.signing_key is Some
            }
        }),
{
}

} // verus!
