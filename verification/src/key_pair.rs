//! Key pairs kept as PKCS#8 PEM files: reading them back, creating them, and signing with them.
//!
//! The caller reads and writes the files; this module decides what the bytes it was handed
//! become, and what to do next. What OpenSSL makes of PEM bytes is named over the bytes.
use vstd::prelude::*;

use crate::core_objects::KeyType;
use crate::key_store::PreferredAlgorithm;
use vstd::string::StringExecFns;

verus! {

/// An OpenSSL key (`openssl::pkey::PKey`).
#[verifier::external_type_specification]
#[verifier::external_body]
#[verifier::reject_recursive_types(T)]
pub struct ExPKey<T>(openssl::pkey::PKey<T>);

/// The marker of private keys (`openssl::pkey::Private`).
#[verifier::external_type_specification]
#[verifier::external_body]
pub struct ExPrivate(openssl::pkey::Private);

/// An I/O error (`std::io::Error`).
#[verifier::external_type_specification]
#[verifier::external_body]
pub struct ExIoError(std::io::Error);

/// A private key read from PEM bytes, and the public key copied out of it. Only
/// [`key_pair_from_pem`] makes one, so its keys are always those of its PEM bytes.
pub struct KeyPair {
    public_key: openssl::pkey::PKey<openssl::pkey::Public>,
    private_key: openssl::pkey::PKey<openssl::pkey::Private>,
    pem: Vec<u8>,
    public_key_der: Vec<u8>,
}

impl KeyPair {
    /// The PEM bytes the key pair was read from.
    pub closed spec fn pem_bytes(&self) -> Seq<u8> {
        self.pem@
    }

    /// The DER SubjectPublicKeyInfo the public key was read from.
    pub closed spec fn public_key_der_bytes(&self) -> Seq<u8> {
        self.public_key_der@
    }

    /// The public key of the pair.
    pub closed spec fn public_key_of(&self) -> openssl::pkey::PKey<openssl::pkey::Public> {
        self.public_key
    }

    /// The public key of the pair.
    pub fn public_key(&self) -> (r: &openssl::pkey::PKey<openssl::pkey::Public>)
        ensures
            *r == self.public_key_of(),
    {
        &self.public_key
    }
}

/// Why a key operation failed.
pub enum Error {
    KeyNotFound(String),
    FileReadError(std::io::Error),
    FileWrite(std::io::Error),
    FileDelete(std::io::Error),
    Openssl(openssl::error::ErrorStack),
    UnimplementedKeyType(KeyType),
    UnsupportedMechanismType,
}

/// The bytes are an unencrypted PEM private key (one that `PKey::private_key_from_pem_callback`
/// reads when the callback supplies an empty passphrase).
pub uninterp spec fn pem_holds_private_key(pem: Seq<u8>) -> bool;

/// The DER SubjectPublicKeyInfo of the public part of the private key in the PEM bytes.
pub uninterp spec fn public_key_der_of(pem: Seq<u8>) -> Seq<u8>;

/// The bytes are a DER SubjectPublicKeyInfo that `PKey::public_key_from_der` reads.
pub uninterp spec fn der_holds_public_key(der: Seq<u8>) -> bool;

/// The private key in the PEM bytes is an elliptic-curve key (`PKeyRef::ec_key` succeeds).
pub uninterp spec fn pem_holds_ec_key(pem: Seq<u8>) -> bool;

/// The private key in the PEM bytes is a P-256 key whose parameters are written by curve name.
pub uninterp spec fn pem_holds_named_p256_key(pem: Seq<u8>) -> bool;

/// The private key in the PEM bytes is an RSA key with a modulus of `bits` bits.
pub uninterp spec fn pem_holds_rsa_key(pem: Seq<u8>, bits: u32) -> bool;

/// The largest size, in bytes, of a signature by the private key in the PEM bytes
/// (`PKeyRef::size`, `EVP_PKEY_size`; `ECDSA_size` for an elliptic-curve key).
pub uninterp spec fn max_signature_size(pem: Seq<u8>) -> usize;

/// The DER-encoded ECDSA signature verifies the digest under the public part of the private key
/// in the PEM bytes.
pub uninterp spec fn ecdsa_signature_verifies(pem: Seq<u8>, signature_der: Seq<u8>, digest: Seq<u8>) -> bool;

/// Reads a PEM private key with a callback that supplies an empty passphrase
/// (`PKey::private_key_from_pem_callback`, so that no passphrase is ever asked for), and the
/// DER SubjectPublicKeyInfo of its public part (`PKeyRef::public_key_to_der`). It succeeds
/// exactly on the bytes `pem_holds_private_key` names, and the DER is `public_key_der_of` the
/// bytes, which `PKey::public_key_from_der` reads. The PEM reader asserts that the length fits a
/// C `int`; the bound leaves that input out.
#[verifier::external_body]
fn private_key_from_pem(pem: &[u8]) -> (r: Result<
    (openssl::pkey::PKey<openssl::pkey::Private>, Vec<u8>),
    openssl::error::ErrorStack,
>)
    requires
        pem@.len() <= 0x7fff_ffff,
    ensures
        r is Ok <==> pem_holds_private_key(pem@),
        r matches Ok(p) ==> p.1@ == public_key_der_of(pem@) && der_holds_public_key(p.1@),
{
    let key = openssl::pkey::PKey::private_key_from_pem_callback(pem, |_| Ok(0))?;
    let der = key.public_key_to_der()?;
    Ok((key, der))
}

/// Reads a DER SubjectPublicKeyInfo (`PKey::public_key_from_der`): it succeeds exactly on the
/// bytes `der_holds_public_key` names.
#[verifier::external_body]
fn public_key_from_der(der: &[u8]) -> (r: Result<
    openssl::pkey::PKey<openssl::pkey::Public>,
    openssl::error::ErrorStack,
>)
    ensures
        r is Ok <==> der_holds_public_key(der@),
{
    openssl::pkey::PKey::public_key_from_der(der)
}

/// Whether the private key of a key pair is an elliptic-curve key (`PKeyRef::ec_key`
/// succeeds); the key was read from the pair's PEM bytes.
#[verifier::external_body]
fn private_key_is_ec(key_pair: &KeyPair) -> (r: bool)
    ensures
        r == pem_holds_ec_key(key_pair.pem_bytes()),
{
    key_pair.private_key.ec_key().is_ok()
}

/// The largest size of a signature by the private key of a key pair (`PKeyRef::size`).
#[verifier::external_body]
fn private_key_size(key_pair: &KeyPair) -> (r: usize)
    ensures
        r == max_signature_size(key_pair.pem_bytes()),
{
    key_pair.private_key.size()
}

/// Signs a digest with the elliptic-curve private key of a key pair: `PKeyRef::ec_key`, then
/// `EcdsaSig::sign` and `EcdsaSig::to_der`. The signature is random; a DER signature it gives
/// verifies the digest under the pair's key and is no longer than `ECDSA_size`. Whether a step fails is not stated.
/// `EcdsaSig::sign` asserts that the digest length fits a C `int`; the bound leaves that input
/// out.
#[verifier::external_body]
fn ecdsa_sign_der(key_pair: &KeyPair, digest: &[u8]) -> (r: Result<Vec<u8>, openssl::error::ErrorStack>)
    requires
        digest@.len() <= 0x7fff_ffff,
    ensures
        r matches Ok(der) ==> ecdsa_signature_verifies(key_pair.pem_bytes(), der@, digest@) && der@.len()
            <= max_signature_size(key_pair.pem_bytes()),
{
    let ec_key = key_pair.private_key.ec_key()?;
    let signature = openssl::ecdsa::EcdsaSig::sign(digest, &ec_key)?;
    signature.to_der()
}

/// A fresh random P-256 private key written by curve name, as PKCS#8 PEM:
/// `EcGroup::from_curve_name(Nid::X9_62_PRIME256V1)`, `EcGroupRef::set_asn1_flag(NAMED_CURVE)`,
/// `EcKey::generate`, `PKey::from_ec_key`, `PKeyRef::private_key_to_pem_pkcs8`. Whether a step
/// fails is not stated.
#[verifier::external_body]
fn generate_p256_pem() -> (r: Result<Vec<u8>, openssl::error::ErrorStack>)
    ensures
        r matches Ok(pem) ==> pem_holds_private_key(pem@) && pem_holds_ec_key(pem@)
            && pem_holds_named_p256_key(pem@),
{
    let mut group = openssl::ec::EcGroup::from_curve_name(openssl::nid::Nid::X9_62_PRIME256V1)?;
    group.set_asn1_flag(openssl::ec::Asn1Flag::NAMED_CURVE);
    let ec_key = openssl::ec::EcKey::generate(&group)?;
    openssl::pkey::PKey::from_ec_key(ec_key)?.private_key_to_pem_pkcs8()
}

/// A fresh random RSA private key with a modulus of `bits` bits, as PKCS#8 PEM:
/// `Rsa::generate`, `PKey::from_rsa`, `PKeyRef::private_key_to_pem_pkcs8`. Whether a step fails
/// is not stated.
#[verifier::external_body]
fn generate_rsa_pem(bits: u32) -> (r: Result<Vec<u8>, openssl::error::ErrorStack>)
    ensures
        r matches Ok(pem) ==> pem_holds_private_key(pem@) && pem_holds_rsa_key(pem@, bits),
{
    openssl::pkey::PKey::from_rsa(openssl::rsa::Rsa::generate(bits)?)?.private_key_to_pem_pkcs8()
}

fn copy_bytes(s: &[u8]) -> (v: Vec<u8>)
    ensures
        v@ == s@,
{
    let mut v: Vec<u8> = Vec::new();
    let mut i: usize = 0;
    while i < s.len()
        invariant
            i <= s.len(),
            v@ == s@.take(i as int),
        decreases s.len() - i,
    {
        v.push(s[i]);
        assert(s@.take(i + 1) =~= s@.take(i as int).push(s@[i as int]));
        i = i + 1;
    }
    assert(s@.take(s.len() as int) =~= s@);
    v
}

/// The key pair held by the PEM bytes of a private key file: the private key, and a public key
/// copied out of it through its DER form. It succeeds exactly on unencrypted PEM private keys.
pub fn key_pair_from_pem(pem: &[u8]) -> (r: Result<KeyPair, Error>)
    requires
        pem@.len() <= 0x7fff_ffff,
    ensures
        r is Ok <==> pem_holds_private_key(pem@),
        r matches Err(e) ==> e is Openssl,
        r matches Ok(key_pair) ==> key_pair.pem_bytes() == pem@ && key_pair.public_key_der_bytes()
            == public_key_der_of(pem@),
{
    let (private_key, public_key_der) = match private_key_from_pem(pem) {
        Ok(p) => p,
        Err(e) => {
            return Err(Error::Openssl(e));
        },
    };
    let public_key = match public_key_from_der(public_key_der.as_slice()) {
        Ok(k) => k,
        Err(e) => {
            return Err(Error::Openssl(e));
        },
    };
    let bytes = copy_bytes(pem);
    Ok(KeyPair { public_key, private_key, pem: bytes, public_key_der })
}

/// The key pair of a key file, from what reading the file gave: its bytes, `None` when the file
/// does not exist, or the read error. A missing file is no key pair; a read error is reported;
/// bytes that do not hold a private key are an OpenSSL error.
pub fn load_inner(read: Result<Option<Vec<u8>>, std::io::Error>) -> (r: Result<
    Option<KeyPair>,
    Error,
>)
    requires
        read matches Ok(Some(pem)) ==> pem@.len() <= 0x7fff_ffff,
    ensures
        read matches Ok(None) ==> r matches Ok(None),
        read is Err ==> r matches Err(Error::FileReadError(_)),
        read matches Ok(Some(_)) ==> (r matches Ok(Some(_)) || r matches Err(Error::Openssl(_))),
        read matches Ok(Some(pem)) ==> (r is Ok <==> pem_holds_private_key(pem@)),
        r matches Ok(Some(key_pair)) ==> (read matches Ok(Some(pem)) && pem_holds_private_key(pem@)
            && key_pair.pem_bytes() == pem@ && key_pair.public_key_der_bytes() == public_key_der_of(pem@)),
{
    match read {
        Ok(Some(pem)) => match key_pair_from_pem(pem.as_slice()) {
            Ok(key_pair) => Ok(Some(key_pair)),
            Err(e) => Err(e),
        },
        Ok(None) => Ok(None),
        Err(e) => Err(Error::FileReadError(e)),
    }
}

/// The modulus size of an RSA algorithm.
pub open spec fn rsa_bits(preferred_algorithm: PreferredAlgorithm) -> u32 {
    match preferred_algorithm {
        PreferredAlgorithm::Rsa4096 => 4096,
        _ => 2048,
    }
}

fn rsa_modulus_bits(preferred_algorithm: &PreferredAlgorithm) -> (r: u32)
    ensures
        r == rsa_bits(*preferred_algorithm),
{
    match preferred_algorithm {
        PreferredAlgorithm::Rsa4096 => 4096,
        _ => 2048,
    }
}

/// The kind of key an algorithm asks for is in the PEM bytes: a P-256 key written by curve
/// name, or an RSA key of 2048 or 4096 bits.
pub open spec fn pem_holds_key_for(pem: Seq<u8>, preferred_algorithm: PreferredAlgorithm) -> bool {
    &&& pem_holds_private_key(pem)
    &&& match preferred_algorithm {
        PreferredAlgorithm::NistP256 => pem_holds_ec_key(pem) && pem_holds_named_p256_key(pem),
        PreferredAlgorithm::Rsa2048 => pem_holds_rsa_key(pem, 2048),
        PreferredAlgorithm::Rsa4096 => pem_holds_rsa_key(pem, 4096),
    }
}

/// A new random private key of the preferred algorithm as PKCS#8 PEM: a P-256 key written with
/// its curve name, or an RSA key of 2048 or 4096 bits.
pub fn create_inner(preferred_algorithm: &PreferredAlgorithm) -> (r: Result<Vec<u8>, Error>)
    ensures
        r matches Err(e) ==> e is Openssl,
        r matches Ok(pem) ==> pem_holds_key_for(pem@, *preferred_algorithm),
{
    let generated = match preferred_algorithm {
        PreferredAlgorithm::NistP256 => generate_p256_pem(),
        _ => generate_rsa_pem(rsa_modulus_bits(preferred_algorithm)),
    };
    match generated {
        Ok(pem) => Ok(pem),
        Err(e) => Err(Error::Openssl(e)),
    }
}

/// Where making sure that a key pair exists stands.
#[derive(Clone, Copy, PartialEq, Eq, Structural, Debug)]
pub enum KeyPairStage {
    /// The key file is read for the first time.
    FirstLoad,
    /// The key file is read again after the key was created and written.
    ReloadAfterCreate,
}

/// What to do after a key file was read.
pub enum KeyPairAction {
    /// The key pair exists.
    Ready(KeyPair),
    /// Create a key (see [`create_inner`]), write it to the file, read the file again and come
    /// back in [`KeyPairStage::ReloadAfterCreate`].
    Create,
    /// Report the error.
    Fail(Error),
}

/// One step of making sure that a key pair exists, from where it stands and what loading the
/// key file gave (see [`load_inner`]): an existing key pair is used as it is, a missing one is
/// created once, and one still missing after it was created is reported.
pub fn create_key_pair_if_not_exists(stage: KeyPairStage, loaded: Result<Option<KeyPair>, Error>) -> (r:
    KeyPairAction)
    ensures
        loaded matches Err(e) ==> r == KeyPairAction::Fail(e),
        loaded matches Ok(Some(key_pair)) ==> r == KeyPairAction::Ready(key_pair),
        loaded matches Ok(None) && stage == KeyPairStage::FirstLoad ==> r is Create,
        loaded matches Ok(None) && stage == KeyPairStage::ReloadAfterCreate ==> (r matches KeyPairAction::Fail(Error::KeyNotFound(m))
            && m@ == "key created successfully but could not be found"@),
        stage == KeyPairStage::ReloadAfterCreate ==> !(r is Create),
{
    match loaded {
        Err(e) => KeyPairAction::Fail(e),
        Ok(Some(key_pair)) => KeyPairAction::Ready(key_pair),
        Ok(None) => match stage {
            KeyPairStage::FirstLoad => KeyPairAction::Create,
            KeyPairStage::ReloadAfterCreate => KeyPairAction::Fail(
                Error::KeyNotFound(String::from_str("key created successfully but could not be found")),
            ),
        },
    }
}

/// One step of making sure that a key pair exists, from what reading the key file gave (see
/// [`load_inner`] and [`create_key_pair_if_not_exists`]): a file holding an unencrypted PEM
/// private key is used as it is and never created again, so repeating the step on the same file
/// gives a key pair of the same bytes; a missing file asks, once, for a key to be created; a
/// read error, bytes that hold no key, and a file still missing after creation are reported.
pub fn next_key_pair_action(stage: KeyPairStage, read: Result<Option<Vec<u8>>, std::io::Error>) -> (r:
    KeyPairAction)
    requires
        read matches Ok(Some(pem)) ==> pem@.len() <= 0x7fff_ffff,
    ensures
        read matches Ok(Some(pem)) ==> (pem_holds_private_key(pem@) ==> (r matches KeyPairAction::Ready(key_pair)
            && key_pair.pem_bytes() == pem@ && key_pair.public_key_der_bytes() == public_key_der_of(pem@))),
        read matches Ok(Some(pem)) && !pem_holds_private_key(pem@) ==> r matches KeyPairAction::Fail(Error::Openssl(_)),
        read is Err ==> r matches KeyPairAction::Fail(Error::FileReadError(_)),
        read matches Ok(None) && stage == KeyPairStage::FirstLoad ==> r is Create,
        read matches Ok(None) && stage == KeyPairStage::ReloadAfterCreate ==> r matches KeyPairAction::Fail(Error::KeyNotFound(_)),
{
    let loaded = load_inner(read);
    create_key_pair_if_not_exists(stage, loaded)
}

/// Signs a digest with the key pair of a key file (`None` when there is none): an ECDSA
/// signature in DER form that verifies the digest under the pair's key, with the largest size a
/// signature by the key can have. Only ES256 with an elliptic-curve key is supported. The
/// signature is random and OpenSSL may fail, so success is not promised.
pub fn sign(key_pair: Option<KeyPair>, key_type: KeyType, digest: &[u8]) -> (r: Result<
    (usize, Vec<u8>),
    Error,
>)
    requires
        digest@.len() <= 0x7fff_ffff,
    ensures
        key_pair is None ==> (r matches Err(Error::KeyNotFound(m)) && m@ == "Could not find key for signing"@),
        r matches Err(Error::KeyNotFound(_)) ==> key_pair is None,
        r matches Err(Error::UnsupportedMechanismType) <==> (key_pair matches Some(k) && (key_type != KeyType::ES256
            || !pem_holds_ec_key(k.pem_bytes()))),
        r matches Ok((n, der)) ==> (key_pair matches Some(k) && key_type == KeyType::ES256 && pem_holds_ec_key(k.pem_bytes())
            && n == max_signature_size(k.pem_bytes()) && der@.len() <= n && ecdsa_signature_verifies(
            k.pem_bytes(),
            der@,
            digest@,
        )),
        r matches Err(e) ==> (e is KeyNotFound || e is UnsupportedMechanismType || e is Openssl),
{
    let key_pair = match key_pair {
        Some(k) => k,
        None => {
            return Err(Error::KeyNotFound(String::from_str("Could not find key for signing")));
        },
    };
    if key_type != KeyType::ES256 {
        return Err(Error::UnsupportedMechanismType);
    }
    if !private_key_is_ec(&key_pair) {
        return Err(Error::UnsupportedMechanismType);
    }
    let signature_len = private_key_size(&key_pair);
    match ecdsa_sign_der(&key_pair, digest) {
        Ok(der) => Ok((signature_len, der)),
        Err(e) => Err(Error::Openssl(e)),
    }
}

/// The public key of the key pair of a key file (`None` when there is none).
pub fn get_public_key(key_pair: Option<KeyPair>) -> (r: Result<
    openssl::pkey::PKey<openssl::pkey::Public>,
    Error,
>)
    ensures
        key_pair is None ==> (r matches Err(Error::KeyNotFound(m)) && m@ == "Cannot get public key"@),
        key_pair matches Some(k) ==> r == Ok::<openssl::pkey::PKey<openssl::pkey::Public>, Error>(k.public_key_of()),
{
    match key_pair {
        Some(k) => Ok(k.public_key),
        None => Err(Error::KeyNotFound(String::from_str("Cannot get public key"))),
    }
}

} // verus!
