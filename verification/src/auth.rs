//! Authentication settings, kept up to date from configuration events, and
//! the checking of RS256 signatures on JSON web tokens.
//!
//! The settings hold trusted public keys and key managers (each by name), the
//! credentials (secret by identifier), and the private key of the service.
//! A token is trusted when it names a trusted key whose text is an SSH RSA
//! public key, and its signature verifies under that key.
use crate::text_map::TextMap;
use vstd::prelude::*;

verus! {

#[verifier::external_type_specification]
#[verifier::external_body]
pub struct ExRsaPrivateKey(rsa::RsaPrivateKey);

#[verifier::external_type_specification]
#[verifier::external_body]
pub struct ExRsaPublicKey(rsa::RsaPublicKey);

#[verifier::external_type_specification]
#[verifier::external_body]
pub struct ExRsaError(rsa::errors::Error);

#[verifier::external_type_specification]
#[verifier::external_body]
pub struct ExPkcs8Error(rsa::pkcs8::Error);

#[verifier::external_type_specification]
#[verifier::external_body]
pub struct ExSshKeysError(sshkeys::Error);

/// A public key announced in configuration: its name and its text.
#[derive(Debug)]
pub struct PublicKey {
    pub name: String,
    pub public_key: String,
}

/// Credentials announced in configuration: an identifier and its secret.
#[derive(Debug)]
pub struct Credentials {
    pub identifier: String,
    pub secret: String,
}

/// A trusted key was added.
#[derive(Debug)]
pub struct TrustedKeyAddedEvent {
    pub public_key: Option<PublicKey>,
}

/// A trusted key was removed.
#[derive(Debug)]
pub struct TrustedKeyRemovedEvent {
    pub name: String,
}

/// A key manager was added.
#[derive(Debug)]
pub struct KeyManagerAddedEvent {
    pub public_key: Option<PublicKey>,
}

/// A key manager was removed.
#[derive(Debug)]
pub struct KeyManagerRemovedEvent {
    pub name: String,
}

/// Credentials were added.
#[derive(Debug)]
pub struct CredentialsAddedEvent {
    pub credentials: Option<Credentials>,
}

/// Credentials were removed.
#[derive(Debug)]
pub struct CredentialsRemovedEvent {
    pub identifier: String,
}

/// Why an authentication operation failed.
#[derive(Debug)]
pub enum AuthError {
    /// The private key is not an RSA key in PKCS#8 DER form.
    InvalidPrivateKey,
    /// The trusted key is not a well-formed SSH public key.
    InvalidSshKey,
    /// The RSA public key is out of the accepted bounds.
    InvalidRsaKey,
    /// The token is not a JSON web token that can be read.
    InvalidToken,
}

/// The authentication settings.
pub struct AuthSettings {
    key_managers: TextMap<String>,
    trusted_keys: TextMap<String>,
    credentials: TextMap<String>,
    private_key: Option<rsa::RsaPrivateKey>,
    private_key_name: String,
}

/// The text of each entry of a map of texts.
pub open spec fn texts(m: Map<Seq<char>, String>) -> Map<Seq<char>, Seq<char>> {
    Map::new(|k: Seq<char>| m.contains_key(k), |k: Seq<char>| m[k]@)
}

impl AuthSettings {
    pub closed spec fn wf(self) -> bool {
        &&& self.key_managers.wf()
        &&& self.trusted_keys.wf()
        &&& self.credentials.wf()
    }

    /// The trusted keys: the text of each by name.
    pub closed spec fn trusted_keys(self) -> Map<Seq<char>, Seq<char>> {
        texts(self.trusted_keys@)
    }

    /// The key managers: the text of each by name.
    pub closed spec fn key_managers(self) -> Map<Seq<char>, Seq<char>> {
        texts(self.key_managers@)
    }

    /// The credentials: the secret of each by identifier.
    pub closed spec fn credentials(self) -> Map<Seq<char>, Seq<char>> {
        texts(self.credentials@)
    }

    /// The private key of the service, if one is set.
    pub closed spec fn private_key(self) -> Option<rsa::RsaPrivateKey> {
        self.private_key
    }

    /// The name of the private key.
    pub closed spec fn private_key_name(self) -> Seq<char> {
        self.private_key_name@
    }

    /// No keys, no credentials, no private key.
    pub fn new() -> (r: AuthSettings)
        ensures
            r.wf(),
            r.trusted_keys() == Map::<Seq<char>, Seq<char>>::empty(),
            r.key_managers() == Map::<Seq<char>, Seq<char>>::empty(),
            r.credentials() == Map::<Seq<char>, Seq<char>>::empty(),
            r.private_key() is None,
            r.private_key_name() == Seq::<char>::empty(),
    {
        let r = AuthSettings {
            key_managers: TextMap::new(),
            trusted_keys: TextMap::new(),
            credentials: TextMap::new(),
            private_key: None,
            private_key_name: String::new(),
        };
        assert(r.trusted_keys() =~= Map::<Seq<char>, Seq<char>>::empty());
        assert(r.key_managers() =~= Map::<Seq<char>, Seq<char>>::empty());
        assert(r.credentials() =~= Map::<Seq<char>, Seq<char>>::empty());
        r
    }

    /// The text of the trusted key with the given name, if any.
    pub fn trusted_key(&self, name: &str) -> (r: Option<&String>)
        requires
            self.wf(),
        ensures
            match r {
                Some(t) => self.trusted_keys().contains_key(name@) && t@ == self.trusted_keys()[name@],
                None => !self.trusted_keys().contains_key(name@),
            },
    {
        self.trusted_keys.get(name)
    }
}

proof fn lemma_texts_insert(m: Map<Seq<char>, String>, k: Seq<char>, v: String)
    ensures
        texts(m.insert(k, v)) == texts(m).insert(k, v@),
{
    assert(texts(m.insert(k, v)) =~= texts(m).insert(k, v@));
}

proof fn lemma_texts_remove(m: Map<Seq<char>, String>, k: Seq<char>)
    ensures
        texts(m.remove(k)) == texts(m).remove(k),
{
    assert(texts(m.remove(k)) =~= texts(m).remove(k));
}

/// Trusts the public key under its name, without checking it.
pub fn unchecked_set_public_key(settings: &mut AuthSettings, public_key: PublicKey)
    requires
        old(settings).wf(),
    ensures
        final(settings).wf(),
        final(settings).trusted_keys() == old(settings).trusted_keys().insert(
            public_key.name@,
            public_key.public_key@,
        ),
        final(settings).key_managers() == old(settings).key_managers(),
        final(settings).credentials() == old(settings).credentials(),
        final(settings).private_key() == old(settings).private_key(),
        final(settings).private_key_name() == old(settings).private_key_name(),
{
    proof {
        lemma_texts_insert(settings.trusted_keys@, public_key.name@, public_key.public_key);
    }
    settings.trusted_keys.insert(public_key.name, public_key.public_key);
}

/// Accepts the public key as a key manager under its name, without checking it.
pub fn unchecked_set_key_manager(settings: &mut AuthSettings, public_key: PublicKey)
    requires
        old(settings).wf(),
    ensures
        final(settings).wf(),
        final(settings).key_managers() == old(settings).key_managers().insert(
            public_key.name@,
            public_key.public_key@,
        ),
        final(settings).trusted_keys() == old(settings).trusted_keys(),
        final(settings).credentials() == old(settings).credentials(),
        final(settings).private_key() == old(settings).private_key(),
        final(settings).private_key_name() == old(settings).private_key_name(),
{
    proof {
        lemma_texts_insert(settings.key_managers@, public_key.name@, public_key.public_key);
    }
    settings.key_managers.insert(public_key.name, public_key.public_key);
}

/// Records the credentials under their identifier, without checking them.
pub fn unchecked_set_credentials(settings: &mut AuthSettings, credentials: Credentials)
    requires
        old(settings).wf(),
    ensures
        final(settings).wf(),
        final(settings).credentials() == old(settings).credentials().insert(
            credentials.identifier@,
            credentials.secret@,
        ),
        final(settings).trusted_keys() == old(settings).trusted_keys(),
        final(settings).key_managers() == old(settings).key_managers(),
        final(settings).private_key() == old(settings).private_key(),
        final(settings).private_key_name() == old(settings).private_key_name(),
{
    proof {
        lemma_texts_insert(settings.credentials@, credentials.identifier@, credentials.secret);
    }
    settings.credentials.insert(credentials.identifier, credentials.secret);
}

/// Stops trusting the public key with the given name.
pub fn remove_public_key(settings: &mut AuthSettings, name: &str)
    requires
        old(settings).wf(),
    ensures
        final(settings).wf(),
        final(settings).trusted_keys() == old(settings).trusted_keys().remove(name@),
        final(settings).key_managers() == old(settings).key_managers(),
        final(settings).credentials() == old(settings).credentials(),
        final(settings).private_key() == old(settings).private_key(),
        final(settings).private_key_name() == old(settings).private_key_name(),
{
    proof {
        lemma_texts_remove(settings.trusted_keys@, name@);
    }
    settings.trusted_keys.remove(name);
}

/// Removes the key manager with the given name.
pub fn remove_key_manager(settings: &mut AuthSettings, name: &str)
    requires
        old(settings).wf(),
    ensures
        final(settings).wf(),
        final(settings).key_managers() == old(settings).key_managers().remove(name@),
        final(settings).trusted_keys() == old(settings).trusted_keys(),
        final(settings).credentials() == old(settings).credentials(),
        final(settings).private_key() == old(settings).private_key(),
        final(settings).private_key_name() == old(settings).private_key_name(),
{
    proof {
        lemma_texts_remove(settings.key_managers@, name@);
    }
    settings.key_managers.remove(name);
}

/// Removes the credentials with the given identifier.
pub fn remove_credentials(settings: &mut AuthSettings, identifier: &str)
    requires
        old(settings).wf(),
    ensures
        final(settings).wf(),
        final(settings).credentials() == old(settings).credentials().remove(identifier@),
        final(settings).trusted_keys() == old(settings).trusted_keys(),
        final(settings).key_managers() == old(settings).key_managers(),
        final(settings).private_key() == old(settings).private_key(),
        final(settings).private_key_name() == old(settings).private_key_name(),
{
    proof {
        lemma_texts_remove(settings.credentials@, identifier@);
    }
    settings.credentials.remove(identifier);
}

/// Applies a `TrustedKeyAddedEvent`: trusts the key it carries, if any.
pub fn handle_trusted_key_added_event(settings: &mut AuthSettings, event: TrustedKeyAddedEvent)
    requires
        old(settings).wf(),
    ensures
        final(settings).wf(),
        final(settings).trusted_keys() == match event.public_key {
            Some(k) => old(settings).trusted_keys().insert(k.name@, k.public_key@),
            None => old(settings).trusted_keys(),
        },
        final(settings).key_managers() == old(settings).key_managers(),
        final(settings).credentials() == old(settings).credentials(),
{
    match event.public_key {
        Some(k) => unchecked_set_public_key(settings, k),
        None => {},
    }
}

/// Applies a `TrustedKeyRemovedEvent`.
pub fn handle_trusted_key_removed_event(settings: &mut AuthSettings, event: TrustedKeyRemovedEvent)
    requires
        old(settings).wf(),
    ensures
        final(settings).wf(),
        final(settings).trusted_keys() == old(settings).trusted_keys().remove(event.name@),
        final(settings).key_managers() == old(settings).key_managers(),
        final(settings).credentials() == old(settings).credentials(),
{
    remove_public_key(settings, event.name.as_str());
}

/// Applies a `KeyManagerAddedEvent`: accepts the key it carries, if any.
pub fn handle_key_manager_added_event(settings: &mut AuthSettings, event: KeyManagerAddedEvent)
    requires
        old(settings).wf(),
    ensures
        final(settings).wf(),
        final(settings).key_managers() == match event.public_key {
            Some(k) => old(settings).key_managers().insert(k.name@, k.public_key@),
            None => old(settings).key_managers(),
        },
        final(settings).trusted_keys() == old(settings).trusted_keys(),
        final(settings).credentials() == old(settings).credentials(),
{
    match event.public_key {
        Some(k) => unchecked_set_key_manager(settings, k),
        None => {},
    }
}

/// Applies a `KeyManagerRemovedEvent`.
pub fn handle_key_manager_removed_event(settings: &mut AuthSettings, event: KeyManagerRemovedEvent)
    requires
        old(settings).wf(),
    ensures
        final(settings).wf(),
        final(settings).key_managers() == old(settings).key_managers().remove(event.name@),
        final(settings).trusted_keys() == old(settings).trusted_keys(),
        final(settings).credentials() == old(settings).credentials(),
{
    remove_key_manager(settings, event.name.as_str());
}

/// Applies a `CredentialsAddedEvent`: records the credentials it carries, if any.
pub fn handle_credentials_added_event(settings: &mut AuthSettings, event: CredentialsAddedEvent)
    requires
        old(settings).wf(),
    ensures
        final(settings).wf(),
        final(settings).credentials() == match event.credentials {
            Some(c) => old(settings).credentials().insert(c.identifier@, c.secret@),
            None => old(settings).credentials(),
        },
        final(settings).trusted_keys() == old(settings).trusted_keys(),
        final(settings).key_managers() == old(settings).key_managers(),
{
    match event.credentials {
        Some(c) => unchecked_set_credentials(settings, c),
        None => {},
    }
}

/// Applies a `CredentialsRemovedEvent`.
pub fn handle_credentials_removed_event(settings: &mut AuthSettings, event: CredentialsRemovedEvent)
    requires
        old(settings).wf(),
    ensures
        final(settings).wf(),
        final(settings).credentials() == old(settings).credentials().remove(event.identifier@),
        final(settings).trusted_keys() == old(settings).trusted_keys(),
        final(settings).key_managers() == old(settings).key_managers(),
{
    remove_credentials(settings, event.identifier.as_str());
}

/// Whether the bytes are the PKCS#8 DER encoding of an RSA private key that
/// the `rsa` crate accepts.
pub uninterp spec fn is_pkcs8_rsa_private_key(der: Seq<u8>) -> bool;

/// What the PKCS#8 DER reader (`rsa::pkcs8::PrivateKeyInfo`) makes of bytes:
/// the private key bytes that the private-key info holds, or `None` when the
/// bytes are not such an info.
pub uninterp spec fn pkcs8_private_key_bytes(der: Seq<u8>) -> Option<Seq<u8>>;

/// Reads PKCS#8 DER private-key info (`rsa::pkcs8::PrivateKeyInfo::try_from`)
/// and gives the private key bytes it holds.
#[verifier::external_body]
fn read_pkcs8_private_key(der: &[u8]) -> (r: Option<Vec<u8>>)
    ensures
        match r {
            Some(k) => pkcs8_private_key_bytes(der@) == Some(k@),
            None => pkcs8_private_key_bytes(der@) is None,
        },
{
    rsa::pkcs8::PrivateKeyInfo::try_from(der).ok().map(|info| info.private_key.to_vec())
}

/// What the PKCS#1 DER reader (`rsa::pkcs1::RsaPrivateKey`) makes of bytes:
/// the big-endian bytes of the two primes of the RSA private key, or `None`
/// when the bytes are not such a key.
pub uninterp spec fn pkcs1_rsa_primes(der: Seq<u8>) -> Option<(Seq<u8>, Seq<u8>)>;

/// Reads a PKCS#1 DER RSA private key (`rsa::pkcs1::RsaPrivateKey::try_from`)
/// and gives the big-endian bytes of its two primes.
#[verifier::external_body]
fn read_pkcs1_rsa_primes(der: &[u8]) -> (r: Option<(Vec<u8>, Vec<u8>)>)
    ensures
        match r {
            Some((p, q)) => pkcs1_rsa_primes(der@) == Some((p@, q@)),
            None => pkcs1_rsa_primes(der@) is None,
        },
{
    rsa::pkcs1::RsaPrivateKey::try_from(der).ok().map(
        |key| (key.prime1.as_bytes().to_vec(), key.prime2.as_bytes().to_vec()),
    )
}

/// The primes of the RSA private key in PKCS#8 DER, read as `rsa` reads them
/// when it decodes the key: the PKCS#1 key inside the private-key info.
pub open spec fn pkcs8_rsa_primes(der: Seq<u8>) -> Option<(Seq<u8>, Seq<u8>)> {
    match pkcs8_private_key_bytes(der) {
        Some(k) => pkcs1_rsa_primes(k),
        None => None,
    }
}

/// The primes that the bytes hold, if any, are both at least 2.  On a key
/// with a smaller prime, `rsa` computes `p - 1` or divides by it and panics.
pub open spec fn primes_usable(der: Seq<u8>) -> bool {
    match pkcs8_rsa_primes(der) {
        Some((p, q)) => be_value(p) >= 2 && be_value(q) >= 2,
        None => true,
    }
}

/// Whether the bytes are a private key that this library takes: an RSA key in
/// PKCS#8 DER whose primes are at least 2 and that `rsa` accepts.
pub open spec fn private_key_accepted(der: Seq<u8>) -> bool {
    primes_usable(der) && is_pkcs8_rsa_private_key(der)
}

/// The RSA private key that `rsa` decodes from PKCS#8 DER bytes: the key
/// built from the components of the PKCS#1 key inside the private-key info.
/// Decoding uses no randomness, so the key is a function of the bytes.
pub uninterp spec fn pkcs8_decoded_private_key(der: Seq<u8>) -> rsa::RsaPrivateKey;

/// Decodes an RSA private key from PKCS#8 DER
/// (`rsa::pkcs8::DecodePrivateKey::from_pkcs8_der` for `rsa::RsaPrivateKey`,
/// which reads the private-key info and the PKCS#1 key in it, and builds the
/// key from its components).  It succeeds exactly when the bytes are such a
/// key, and the key is the one those bytes encode.  Keys whose primes are
/// below 2 are kept out: building them panics.
#[verifier::external_body]
fn decode_private_key(der: &[u8]) -> (r: Result<rsa::RsaPrivateKey, rsa::pkcs8::Error>)
    requires
        primes_usable(der@),
    ensures
        r is Ok <==> is_pkcs8_rsa_private_key(der@),
        r matches Ok(k) ==> k == pkcs8_decoded_private_key(der@),
{
    <rsa::RsaPrivateKey as rsa::pkcs8::DecodePrivateKey>::from_pkcs8_der(der)
}

proof fn lemma_be_value_zero(s: Seq<u8>)
    ensures
        (be_value(s) == 0) <==> (forall|i: int| 0 <= i < s.len() ==> s[i] == 0),
    decreases s.len(),
{
    if s.len() > 0 {
        lemma_be_value_zero(s.drop_last());
        if be_value(s) == 0 {
            assert forall|i: int| 0 <= i < s.len() implies s[i] == 0 by {
                if i < s.len() - 1 {
                    assert(s.drop_last()[i] == s[i]);
                }
            }
        }
        if forall|i: int| 0 <= i < s.len() ==> s[i] == 0 {
            assert forall|i: int| 0 <= i < s.drop_last().len() implies s.drop_last()[i] == 0 by {
                assert(s.drop_last()[i] == s[i]);
            }
        }
    }
}

/// Whether big-endian bytes denote a number of at least 2.
fn at_least_two(bytes: &Vec<u8>) -> (r: bool)
    ensures
        r == (be_value(bytes@) >= 2),
{
    let n = bytes.len();
    if n == 0 {
        return false;
    }
    let mut i: usize = 0;
    while i < n - 1
        invariant
            n == bytes@.len(),
            n > 0,
            i <= n - 1,
            forall|j: int| 0 <= j < i ==> bytes@[j] == 0,
        decreases n - 1 - i,
    {
        if bytes[i] != 0 {
            proof {
                let high = bytes@.drop_last();
                lemma_be_value_zero(high);
                assert(high[i as int] != 0);
                assert(be_value(high) >= 1);
                assert(be_value(bytes@) == be_value(high) * 256 + bytes@.last() as nat);
            }
            return true;
        }
        i = i + 1;
    }
    proof {
        let high = bytes@.drop_last();
        lemma_be_value_zero(high);
        assert forall|j: int| 0 <= j < high.len() implies high[j] == 0 by {
            assert(high[j] == bytes@[j]);
        }
        assert(be_value(high) == 0);
        assert(be_value(bytes@) == be_value(high) * 256 + bytes@.last() as nat);
    }
    bytes[n - 1] >= 2
}

/// Sets the private key of the service from the bytes of the given text
/// (read as PKCS#8 DER) under the given name.  Fails, changing nothing, when
/// the bytes are not such a key, or hold a prime below 2 (checked first).
pub fn set_private_key(settings: &mut AuthSettings, key_name: String, pem_string: String) -> (r:
    Result<(), AuthError>)
    requires
        old(settings).wf(),
    ensures
        final(settings).wf(),
        private_key_accepted(vstd::utf8::encode_utf8(pem_string@)) ==> {
            &&& r is Ok
            &&& final(settings).private_key() == Some(pkcs8_decoded_private_key(vstd::utf8::encode_utf8(pem_string@)))
            &&& final(settings).private_key_name() == key_name@
        },
        !private_key_accepted(vstd::utf8::encode_utf8(pem_string@)) ==> {
            &&& r matches Err(AuthError::InvalidPrivateKey)
            &&& final(settings).private_key() == old(settings).private_key()
            &&& final(settings).private_key_name() == old(settings).private_key_name()
        },
        final(settings).trusted_keys() == old(settings).trusted_keys(),
        final(settings).key_managers() == old(settings).key_managers(),
        final(settings).credentials() == old(settings).credentials(),
{
    let der = pem_string.as_str().as_bytes();
    match read_pkcs8_private_key(der) {
        Some(inner) => match read_pkcs1_rsa_primes(inner.as_slice()) {
            Some((p, q)) => {
                if !(at_least_two(&p) && at_least_two(&q)) {
                    return Err(AuthError::InvalidPrivateKey);
                }
            },
            None => {},
        },
        None => {},
    }
    match decode_private_key(der) {
        Ok(key) => {
            settings.private_key_name = key_name;
            settings.private_key = Some(key);
            Ok(())
        },
        Err(_) => Err(AuthError::InvalidPrivateKey),
    }
}

/// The value of bytes read as a big-endian unsigned number.
pub open spec fn be_value(bytes: Seq<u8>) -> nat
    decreases bytes.len(),
{
    if bytes.len() == 0 {
        0
    } else {
        be_value(bytes.drop_last()) * 256 + bytes.last() as nat
    }
}

/// Whether `rsa::RsaPublicKey::new` accepts the modulus and exponent read from
/// big-endian bytes: the modulus has at most 4096 bits and the exponent lies
/// between 2 and 2^33 - 1.
pub open spec fn rsa_key_accepted(modulus: Seq<u8>, exponent: Seq<u8>) -> bool {
    &&& be_value(modulus) < vstd::arithmetic::power2::pow2(4096)
    &&& 2 <= be_value(exponent) <= 0x1_ffff_ffff
}

/// The RSA public key that `rsa` builds from the big-endian bytes of a modulus
/// and an exponent.
pub uninterp spec fn rsa_public_key_of(modulus: Seq<u8>, exponent: Seq<u8>) -> rsa::RsaPublicKey;

/// Builds an RSA public key from the big-endian bytes of its modulus and
/// exponent (`rsa::BigUint::from_bytes_be` for each, then
/// `rsa::RsaPublicKey::new`, which checks the sizes and keeps the two numbers).
#[verifier::external_body]
fn new_rsa_public_key(modulus: &[u8], exponent: &[u8]) -> (r: Result<rsa::RsaPublicKey, rsa::errors::Error>)
    ensures
        r is Ok <==> rsa_key_accepted(modulus@, exponent@),
        r matches Ok(k) ==> k == rsa_public_key_of(modulus@, exponent@),
{
    rsa::RsaPublicKey::new(rsa::BigUint::from_bytes_be(modulus), rsa::BigUint::from_bytes_be(exponent))
}

/// An RSA public key together with the modulus and exponent it was built from.
pub struct RsaKey {
    modulus: Vec<u8>,
    exponent: Vec<u8>,
    key: rsa::RsaPublicKey,
}

impl RsaKey {
    /// The big-endian bytes of the modulus.
    pub closed spec fn spec_modulus(self) -> Seq<u8> {
        self.modulus@
    }

    /// The big-endian bytes of the exponent.
    pub closed spec fn spec_exponent(self) -> Seq<u8> {
        self.exponent@
    }

    /// The RSA public key.
    pub closed spec fn spec_key(self) -> rsa::RsaPublicKey {
        self.key
    }

    /// The key is the one built from the modulus and exponent kept beside it.
    #[verifier::type_invariant]
    closed spec fn key_matches(self) -> bool {
        self.key == rsa_public_key_of(self.modulus@, self.exponent@)
    }
}

/// The RSA public key with the given modulus and exponent; fails when the
/// `rsa` crate does not accept them.
pub fn rsa_key(modulus: Vec<u8>, exponent: Vec<u8>) -> (r: Result<RsaKey, AuthError>)
    ensures
        rsa_key_accepted(modulus@, exponent@) ==> (r matches Ok(k) && k.spec_modulus() == modulus@
            && k.spec_exponent() == exponent@ && k.spec_key() == rsa_public_key_of(modulus@, exponent@)),
        !rsa_key_accepted(modulus@, exponent@) ==> (r matches Err(AuthError::InvalidRsaKey)),
{
    match new_rsa_public_key(modulus.as_slice(), exponent.as_slice()) {
        Ok(key) => Ok(RsaKey { modulus, exponent, key }),
        Err(_) => Err(AuthError::InvalidRsaKey),
    }
}

/// The SHA-256 digest of the bytes.
pub uninterp spec fn sha256(data: Seq<u8>) -> Seq<u8>;

/// Hashes bytes with SHA-256 (`sha2::Digest::digest` for `sha2::Sha256`): the
/// digest of the bytes, 32 bytes long.
#[verifier::external_body]
fn sha256_digest(data: &[u8]) -> (r: Vec<u8>)
    ensures
        r@ == sha256(data@),
        r@.len() == 32,
{
    <sha2::Sha256 as sha2::Digest>::digest(data).to_vec()
}

/// Whether the signature is a valid RSASSA-PKCS1-v1_5 signature, with the
/// SHA-256 digest prefix, of the hashed bytes under the RSA public key with
/// the given modulus and exponent (it is not when the hashed bytes are not
/// 32 long).
pub uninterp spec fn rs256_signature_valid(
    modulus: Seq<u8>,
    exponent: Seq<u8>,
    hashed: Seq<u8>,
    signature: Seq<u8>,
) -> bool;

/// Verifies a PKCS#1 v1.5 signature over a SHA-256 digest
/// (`rsa::PublicKey::verify` with `PaddingScheme::new_pkcs1v15_sign::<Sha256>`)
/// under the key, which was built from its modulus and exponent.
#[verifier::external_body]
fn verify_pkcs1v15_sha256(key: &RsaKey, hashed: &[u8], signature: &[u8]) -> (r: bool)
    requires
        key.spec_key() == rsa_public_key_of(key.spec_modulus(), key.spec_exponent()),
    ensures
        r == rs256_signature_valid(key.spec_modulus(), key.spec_exponent(), hashed@, signature@),
{
    let padding = rsa::PaddingScheme::new_pkcs1v15_sign::<sha2::Sha256>();
    rsa::PublicKey::verify(&key.key, padding, hashed, signature).is_ok()
}

/// The bytes that an RS256 signature signs: the header, a dot, the claims.
pub open spec fn signing_input(header: Seq<char>, claims: Seq<char>) -> Seq<u8> {
    vstd::utf8::encode_utf8(header) + vstd::utf8::encode_utf8(seq!['.']) + vstd::utf8::encode_utf8(
        claims,
    )
}

proof fn lemma_encode_utf8_concat(a: Seq<char>, b: Seq<char>)
    ensures
        vstd::utf8::encode_utf8(a + b) == vstd::utf8::encode_utf8(a) + vstd::utf8::encode_utf8(b),
    decreases a.len(),
{
    if a.len() == 0 {
        assert(a + b =~= b);
        assert(vstd::utf8::encode_utf8(a) =~= Seq::<u8>::empty());
        assert(Seq::<u8>::empty() + vstd::utf8::encode_utf8(b) =~= vstd::utf8::encode_utf8(b));
    } else {
        lemma_encode_utf8_concat(a.drop_first(), b);
        assert((a + b).drop_first() =~= a.drop_first() + b);
        assert((a + b)[0] == a[0]);
        let e0 = vstd::utf8::encode_scalar(a[0] as u32);
        assert(e0 + (vstd::utf8::encode_utf8(a.drop_first()) + vstd::utf8::encode_utf8(b)) =~= (e0
            + vstd::utf8::encode_utf8(a.drop_first())) + vstd::utf8::encode_utf8(b));
    }
}

/// The bytes that an RS256 signature of a token signs are the JWS signing
/// input: the UTF-8 encoding of the header, a `.` and the claims, for every
/// header and claims; the header's bytes come first, then the single byte of
/// `.` (46), then the claims' bytes.
pub proof fn lemma_signing_input_is_jws_input(header: Seq<char>, claims: Seq<char>)
    ensures
        signing_input(header, claims) == vstd::utf8::encode_utf8(header + seq!['.'] + claims),
        signing_input(header, claims) == vstd::utf8::encode_utf8(header) + seq![46u8]
            + vstd::utf8::encode_utf8(claims),
{
    lemma_encode_utf8_concat(header, seq!['.']);
    lemma_encode_utf8_concat(header + seq!['.'], claims);
    let dot = seq!['.'];
    assert(dot[0] as u32 == 46u32);
    assert(dot.drop_first() =~= Seq::<char>::empty());
    assert(vstd::utf8::encode_utf8(dot.drop_first()) =~= Seq::<u8>::empty());
    assert((46u32 & 0x7Fu32) as u8 == 46u8) by (bit_vector);
    assert(vstd::utf8::encode_scalar(46u32) =~= seq![46u8]);
    assert(vstd::utf8::encode_utf8(dot) =~= seq![46u8]);
}

/// Whether the signature is a valid RS256 signature of the token's header and
/// claims (as they appear in the token) under the key.
pub fn verify_rs256(key: &RsaKey, header: &str, claims: &str, signature: &[u8]) -> (r: bool)
    ensures
        r == rs256_signature_valid(
            key.spec_modulus(),
            key.spec_exponent(),
            sha256(signing_input(header@, claims@)),
            signature@,
        ),
{
    let mut message: Vec<u8> = Vec::new();
    let h = header.as_bytes();
    message.extend_from_slice(h);
    assert forall|i: int| 0 <= i < message@.len() implies message@[i] == h@[i] by {
        assert(cloned::<u8>(h@[i], message@[i]));
    }
    assert(message@ =~= vstd::utf8::encode_utf8(header@));
    let separator = ".";
    proof {
        reveal_strlit(".");
        assert(separator@ =~= seq!['.']);
    }
    let d = separator.as_bytes();
    let ghost m1 = message@;
    message.extend_from_slice(d);
    assert forall|i: int| m1.len() <= i < message@.len() implies message@[i] == d@[i - m1.len()] by {
        assert(cloned::<u8>(d@[i - m1.len()], message@[i]));
    }
    assert(message@ =~= m1 + vstd::utf8::encode_utf8(seq!['.']));
    let c = claims.as_bytes();
    let ghost m2 = message@;
    message.extend_from_slice(c);
    assert forall|i: int| m2.len() <= i < message@.len() implies message@[i] == c@[i - m2.len()] by {
        assert(cloned::<u8>(c@[i - m2.len()], message@[i]));
    }
    assert(message@ =~= signing_input(header@, claims@));
    let hashed = sha256_digest(message.as_slice());
    proof {
        use_type_invariant(key);
    }
    verify_pkcs1v15_sha256(key, hashed.as_slice(), signature)
}

/// Whether a character has the Unicode `White_Space` property, which is what
/// `char::is_whitespace` tests.
pub open spec fn is_whitespace_char(c: char) -> bool {
    let u = c as u32;
    ||| 0x09 <= u <= 0x0d
    ||| u == 0x20
    ||| u == 0x85
    ||| u == 0xa0
    ||| u == 0x1680
    ||| 0x2000 <= u <= 0x200a
    ||| u == 0x2028
    ||| u == 0x2029
    ||| u == 0x202f
    ||| u == 0x205f
    ||| u == 0x3000
}

/// `char::is_whitespace`.
pub fn is_whitespace(c: char) -> (r: bool)
    ensures
        r == is_whitespace_char(c),
{
    let u = c as u32;
    (0x09 <= u && u <= 0x0d) || u == 0x20 || u == 0x85 || u == 0xa0 || u == 0x1680 || (0x2000 <= u
        && u <= 0x200a) || u == 0x2028 || u == 0x2029 || u == 0x202f || u == 0x205f || u == 0x3000
}

/// The text from the first character that is not blank, where blanks are the
/// whitespace characters other than a line feed.
pub open spec fn skip_blanks(s: Seq<char>) -> Seq<char>
    decreases s.len(),
{
    if s.len() > 0 && s[0] != '\n' && is_whitespace_char(s[0]) {
        skip_blanks(s.drop_first())
    } else {
        s
    }
}

/// The longest start of the text without whitespace.
pub open spec fn leading_word(s: Seq<char>) -> Seq<char>
    decreases s.len(),
{
    if s.len() > 0 && !is_whitespace_char(s[0]) {
        seq![s[0]] + leading_word(s.drop_first())
    } else {
        Seq::empty()
    }
}

/// The base64 text that `sshkeys::PublicKey::from_string` decodes from
/// "ssh-rsa " followed by `key`: the first word after the key type on the
/// first line, or `None` when that line holds nothing more.
pub open spec fn ssh_key_data(key: Seq<char>) -> Option<Seq<char>> {
    let rest = skip_blanks(key);
    if rest.len() == 0 || rest[0] == '\n' {
        None
    } else {
        Some(leading_word(rest))
    }
}

/// What decoding text as standard base64 (`base64::engine::general_purpose::STANDARD`)
/// gives: the bytes, or `None` when the text is not such base64.
pub uninterp spec fn base64_standard_decode(text: Seq<char>) -> Option<Seq<u8>>;

/// Decodes standard base64 (`base64::Engine::decode` with
/// `base64::engine::general_purpose::STANDARD`, the engine that `sshkeys`
/// uses).
#[verifier::external_body]
fn decode_base64(text: &str) -> (r: Option<Vec<u8>>)
    ensures
        match r {
            Some(b) => base64_standard_decode(text@) == Some(b@),
            None => base64_standard_decode(text@) is None,
        },
{
    <base64::engine::GeneralPurpose as base64::Engine>::decode(
        &base64::engine::general_purpose::STANDARD,
        text,
    ).ok()
}

/// The 32-bit big-endian number at the offset.
pub open spec fn be32(b: Seq<u8>, o: int) -> int {
    b[o] as int * 0x1000000 + b[o + 1] as int * 0x10000 + b[o + 2] as int * 0x100 + b[o + 3] as int
}

/// The bytes of the key type "ssh-rsa".
pub open spec fn ssh_rsa_type_bytes() -> Seq<u8> {
    seq![115u8, 115u8, 104u8, 45u8, 114u8, 115u8, 97u8]
}

/// Whether the length-prefixed field at the offset lies within the bytes
/// (how `sshkeys` reads a field).
pub open spec fn field_fits(b: Seq<u8>, o: int) -> bool {
    o + 4 <= b.len() && o + 4 + be32(b, o) <= b.len()
}

/// Whether reading an RSA key from the decoded key, as `sshkeys` does (the
/// key type "ssh-rsa", then the exponent, then the modulus, each with a
/// length), comes to an integer field of length zero.  `sshkeys` reads the
/// first byte of such a field and panics.
pub open spec fn rsa_blob_has_empty_integer(b: Seq<u8>) -> bool {
    &&& field_fits(b, 0)
    &&& b.subrange(4, 4 + be32(b, 0)) == ssh_rsa_type_bytes()
    &&& field_fits(b, 4 + be32(b, 0))
    &&& {
        let o = 4 + be32(b, 0);
        ||| be32(b, o) == 0
        ||| field_fits(b, o + 4 + be32(b, o)) && be32(b, o + 4 + be32(b, o)) == 0
    }
}

/// How an SSH RSA public key blob that holds the key type `ssh-rsa` and an
/// exponent field is judged: it has an empty integer exactly when its
/// exponent is empty, or its modulus field fits and is empty.  In particular
/// a key whose exponent and modulus are not empty, whatever their lengths,
/// has none.
pub proof fn lemma_rsa_blob_empty_integer_exactly(b: Seq<u8>)
    requires
        b.len() >= 15,
        b[0] == 0 && b[1] == 0 && b[2] == 0 && b[3] == 7,
        b.subrange(4, 11) == ssh_rsa_type_bytes(),
        15 + be32(b, 11) <= b.len(),
    ensures
        be32(b, 11) == 0 ==> rsa_blob_has_empty_integer(b),
        be32(b, 11) > 0 && 15 + be32(b, 11) + 4 <= b.len() && 15 + be32(b, 11) + 4 + be32(b, 15 + be32(b, 11)) <= b.len() ==> (rsa_blob_has_empty_integer(b) <==> be32(b, 15 + be32(b, 11)) == 0),
        be32(b, 11) > 0 && 15 + be32(b, 11) + 4 > b.len() ==> !rsa_blob_has_empty_integer(b),
{
    assert(be32(b, 0) == 7);
}

/// Whether `sshkeys::PublicKey::from_string` panics on "ssh-rsa " followed by
/// the key text.
pub open spec fn ssh_rsa_key_panics(key: Seq<char>) -> bool {
    match ssh_key_data(key) {
        Some(data) => match base64_standard_decode(data) {
            Some(b) => rsa_blob_has_empty_integer(b),
            None => false,
        },
        None => false,
    }
}

proof fn lemma_skip_blanks_step(s: Seq<char>, i: int)
    requires
        0 <= i < s.len(),
        s[i] != '\n',
        is_whitespace_char(s[i]),
    ensures
        skip_blanks(s.subrange(i, s.len() as int)) == skip_blanks(s.subrange(i + 1, s.len() as int)),
{
    assert(s.subrange(i, s.len() as int).drop_first() =~= s.subrange(i + 1, s.len() as int));
}

proof fn lemma_leading_word_step(s: Seq<char>, i: int)
    requires
        0 <= i < s.len(),
        !is_whitespace_char(s[i]),
    ensures
        leading_word(s.subrange(i, s.len() as int)) == seq![s[i]] + leading_word(
            s.subrange(i + 1, s.len() as int),
        ),
{
    assert(s.subrange(i, s.len() as int).drop_first() =~= s.subrange(i + 1, s.len() as int));
}

/// The base64 text that `sshkeys` reads from "ssh-rsa " followed by `key`.
fn key_data(key: &str) -> (r: Option<String>)
    ensures
        match r {
            Some(d) => ssh_key_data(key@) == Some(d@),
            None => ssh_key_data(key@) is None,
        },
{
    let n = key.unicode_len();
    let mut i: usize = 0;
    proof {
        assert(key@.subrange(0, n as int) =~= key@);
    }
    loop
        invariant
            n == key@.len(),
            i <= n,
            skip_blanks(key@) == skip_blanks(key@.subrange(i as int, n as int)),
        ensures
            n == key@.len(),
            i <= n,
            skip_blanks(key@) == key@.subrange(i as int, n as int),
        decreases n - i,
    {
        if i == n {
            break;
        }
        let c = key.get_char(i);
        if c == '\n' || !is_whitespace(c) {
            break;
        }
        proof {
            lemma_skip_blanks_step(key@, i as int);
        }
        i = i + 1;
    }
    if i == n || key.get_char(i) == '\n' {
        return None;
    }
    let mut j: usize = i;
    proof {
        assert(key@.subrange(i as int, j as int) =~= Seq::<char>::empty());
    }
    loop
        invariant
            n == key@.len(),
            i < n,
            i <= j <= n,
            leading_word(key@.subrange(i as int, n as int)) == key@.subrange(i as int, j as int)
                + leading_word(key@.subrange(j as int, n as int)),
        ensures
            n == key@.len(),
            i < n,
            i <= j <= n,
            leading_word(key@.subrange(i as int, n as int)) == key@.subrange(i as int, j as int),
        decreases n - j,
    {
        if j == n {
            proof {
                assert(key@.subrange(j as int, n as int) =~= Seq::<char>::empty());
                assert(key@.subrange(i as int, j as int) + Seq::<char>::empty() =~= key@.subrange(
                    i as int,
                    j as int,
                ));
            }
            break;
        }
        let c = key.get_char(j);
        if is_whitespace(c) {
            proof {
                assert(key@.subrange(i as int, j as int) + Seq::<char>::empty() =~= key@.subrange(
                    i as int,
                    j as int,
                ));
            }
            break;
        }
        proof {
            lemma_leading_word_step(key@, j as int);
            assert(key@.subrange(i as int, j as int) + (seq![c] + leading_word(
                key@.subrange(j + 1, n as int),
            )) =~= key@.subrange(i as int, j + 1) + leading_word(key@.subrange(j + 1, n as int)));
        }
        j = j + 1;
    }
    let word = key.substring_char(i, j);
    Some(word.to_owned())
}

/// The 32-bit big-endian number at the offset, which lies within the bytes.
fn read_be32(b: &Vec<u8>, o: usize) -> (r: u64)
    requires
        o + 4 <= b.len(),
    ensures
        r == be32(b@, o as int),
{
    (b[o] as u64) * 0x1000000 + (b[o + 1] as u64) * 0x10000 + (b[o + 2] as u64) * 0x100 + (b[o
        + 3] as u64)
}

/// Whether the length-prefixed field at the offset lies within the bytes.
fn field_fits_at(b: &Vec<u8>, o: u64) -> (r: bool)
    requires
        o <= b@.len(),
    ensures
        r == field_fits(b@, o as int),
{
    let len = b.len() as u64;
    if len - o < 4 {
        return false;
    }
    let size = read_be32(b, o as usize);
    size <= len - o - 4
}

/// `rsa_blob_has_empty_integer`.
fn blob_has_empty_integer(b: &Vec<u8>) -> (r: bool)
    ensures
        r == rsa_blob_has_empty_integer(b@),
{
    let len = b.len() as u64;
    if !field_fits_at(b, 0) {
        return false;
    }
    let l1 = read_be32(b, 0);
    let expected: [u8; 7] = [115, 115, 104, 45, 114, 115, 97];
    if l1 != 7 {
        proof {
            assert(b@.subrange(4, 4 + be32(b@, 0)).len() != ssh_rsa_type_bytes().len());
        }
        return false;
    }
    let mut k: usize = 0;
    while k < 7
        invariant
            b@.len() >= 11,
            l1 == 7,
            be32(b@, 0) == 7,
            k <= 7,
            expected@ == ssh_rsa_type_bytes(),
            forall|m: int| 0 <= m < k ==> b@[4 + m] == ssh_rsa_type_bytes()[m],
        decreases 7 - k,
    {
        if b[4 + k] != expected[k] {
            proof {
                assert(b@.subrange(4, 11)[k as int] != ssh_rsa_type_bytes()[k as int]);
            }
            return false;
        }
        k = k + 1;
    }
    proof {
        assert(b@.subrange(4, 4 + be32(b@, 0)) =~= ssh_rsa_type_bytes());
    }
    let o: u64 = 11;
    if !field_fits_at(b, o) {
        return false;
    }
    let l2 = read_be32(b, o as usize);
    if l2 == 0 {
        return true;
    }
    let o2 = o + 4 + l2;
    if !field_fits_at(b, o2) {
        return false;
    }
    read_be32(b, o2 as usize) == 0
}

/// Whether `sshkeys::PublicKey::from_string` panics on "ssh-rsa " followed by
/// the key text.
fn ssh_rsa_key_panics_on(key: &str) -> (r: bool)
    ensures
        r == ssh_rsa_key_panics(key@),
{
    match key_data(key) {
        Some(data) => match decode_base64(data.as_str()) {
            Some(b) => blob_has_empty_integer(&b),
            None => false,
        },
        None => false,
    }
}

/// What `sshkeys::PublicKey::from_string` makes of a text: `None` when it is
/// not a well-formed SSH public key, `Some(None)` for a key that is not RSA,
/// and `Some(Some((n, e)))` for an RSA key with modulus `n` and exponent `e`
/// (big-endian bytes).
pub uninterp spec fn ssh_public_key_rsa(text: Seq<char>) -> Option<Option<(Seq<u8>, Seq<u8>)>>;

/// Parses an SSH public key (`sshkeys::PublicKey::from_string`) and gives the
/// modulus and exponent of an RSA key.  Only "ssh-rsa " followed by a key
/// text is parsed here, and the key texts on which `sshkeys` panics (an empty
/// exponent or modulus) are kept out.
#[verifier::external_body]
fn parse_ssh_rsa(text: &str) -> (r: Result<Option<(Vec<u8>, Vec<u8>)>, sshkeys::Error>)
    requires
        text@.len() >= SSH_RSA_PREFIX@.len(),
        text@.subrange(0, SSH_RSA_PREFIX@.len() as int) == SSH_RSA_PREFIX@,
        !ssh_rsa_key_panics(text@.subrange(SSH_RSA_PREFIX@.len() as int, text@.len() as int)),
    ensures
        match r {
            Err(_) => ssh_public_key_rsa(text@) is None,
            Ok(None) => ssh_public_key_rsa(text@) == Some(None::<(Seq<u8>, Seq<u8>)>),
            Ok(Some((n, e))) => ssh_public_key_rsa(text@) == Some(Some((n@, e@))),
        },
{
    match sshkeys::PublicKey::from_string(text)?.kind {
        sshkeys::PublicKeyKind::Rsa(sshkeys::RsaPublicKey { n, e }) => Ok(Some((n, e))),
        _ => Ok(None),
    }
}

/// The prefix that turns a trusted key's text into an SSH public key.
pub const SSH_RSA_PREFIX: &'static str = "ssh-rsa ";

/// What looking up the RSA key of the trusted key with the given name gives:
/// `None` when no key is trusted under the name or its text (after
/// "ssh-rsa ") is an SSH key of another kind; an error when that text is not
/// an SSH public key (among them the texts whose exponent or modulus is
/// empty, which are refused before `sshkeys` reads them) or its RSA key is
/// out of bounds.
pub open spec fn trusted_key_outcome(settings: AuthSettings, key_id: Seq<char>, r: Result<Option<RsaKey>, AuthError>) -> bool {
    if !settings.trusted_keys().contains_key(key_id) {
        r matches Ok(None)
    } else if ssh_rsa_key_panics(settings.trusted_keys()[key_id]) {
        r matches Err(AuthError::InvalidSshKey)
    } else {
        match ssh_public_key_rsa(SSH_RSA_PREFIX@ + settings.trusted_keys()[key_id]) {
            None => r matches Err(AuthError::InvalidSshKey),
            Some(None) => r matches Ok(None),
            Some(Some((n, e))) => if rsa_key_accepted(n, e) {
                r matches Ok(Some(k)) && k.spec_modulus() == n && k.spec_exponent() == e
            } else {
                r matches Err(AuthError::InvalidRsaKey)
            },
        }
    }
}

/// The RSA key of the trusted key with the given name (see
/// `trusted_key_outcome`).
pub fn trusted_rsa_key(settings: &AuthSettings, key_id: &str) -> (r: Result<Option<RsaKey>, AuthError>)
    requires
        settings.wf(),
    ensures
        trusted_key_outcome(*settings, key_id@, r),
{
    match settings.trusted_key(key_id) {
        None => Ok(None),
        Some(key) => {
            if ssh_rsa_key_panics_on(key.as_str()) {
                return Err(AuthError::InvalidSshKey);
            }
            let mut text = SSH_RSA_PREFIX.to_owned();
            text.append(key.as_str());
            proof {
                assert(text@.subrange(0, SSH_RSA_PREFIX@.len() as int) =~= SSH_RSA_PREFIX@);
                assert(text@.subrange(SSH_RSA_PREFIX@.len() as int, text@.len() as int) =~= key@);
            }
            match parse_ssh_rsa(text.as_str()) {
                Err(_) => Err(AuthError::InvalidSshKey),
                Ok(None) => Ok(None),
                Ok(Some((n, e))) => match rsa_key(n, e) {
                    Ok(k) => Ok(Some(k)),
                    Err(err) => Err(err),
                },
            }
        },
    }
}

/// What `jwt` reads from a JSON web token (`jwt::Token::parse_unverified`,
/// with `jwt::Header` and a map of JSON claims): the key id that its header
/// names, if any, or `None` when the token cannot be read.
pub uninterp spec fn jwt_header_key_id(token: Seq<char>) -> Option<Option<Seq<char>>>;

/// Reads the key id from the header of a JSON web token
/// (`jwt::Token::parse_unverified`, then the header's `key_id`).
#[verifier::external_body]
fn jwt_key_id(token: &str) -> (r: Option<Option<String>>)
    ensures
        match r {
            None => jwt_header_key_id(token@) is None,
            Some(None) => jwt_header_key_id(token@) == Some(None::<Seq<char>>),
            Some(Some(id)) => jwt_header_key_id(token@) == Some(Some(id@)),
        },
{
    match jwt::Token::<
        jwt::Header,
        std::collections::HashMap<String, serde_json::Value>,
        jwt::Unverified<'_>,
    >::parse_unverified(token) {
        Ok(unverified) => Some(unverified.header().key_id.clone()),
        Err(_) => None,
    }
}

/// The RSA key under which the signature of a JSON web token is to be checked:
/// the trusted key named by the key id in the token's header.  No key when
/// the header names none; an error when the token cannot be read, and
/// otherwise as `trusted_rsa_key` for that key id.
pub fn jwt_trusted_key(settings: &AuthSettings, token: &str) -> (r: Result<Option<RsaKey>, AuthError>)
    requires
        settings.wf(),
    ensures
        match jwt_header_key_id(token@) {
            None => r matches Err(AuthError::InvalidToken),
            Some(None) => r matches Ok(None),
            Some(Some(key_id)) => trusted_key_outcome(*settings, key_id, r),
        },
{
    match jwt_key_id(token) {
        None => Err(AuthError::InvalidToken),
        Some(None) => Ok(None),
        Some(Some(key_id)) => trusted_rsa_key(settings, key_id.as_str()),
    }
}

} // verus!
