//! Validation of JWT-SVIDs in compact form against a trust bundle.
//!
//! Validation runs in two verified steps around the JSON decoding of header and claims:
//! [`decode_jwt_svid_compact`] frames the token (three base64 parts, UTF-8 header and claims,
//! the digest of the signed input), and [`JWTSVIDValidator::check_jwt_svid`] checks the decoded
//! header and claims and the ECDSA signature.
use vstd::prelude::*;

use crate::core_objects::{
    JWTClaims, JWTHeader, JWTSVID, JWTType, KeyType, TrustBundle, JWK,
};
use crate::text::{lemma_split_join, lemma_split_piece_bytes, split_chars, split_on};
use vstd::string::StringExecFns;
use vstd::utf8::{decode_utf8, valid_utf8};

verus! {

broadcast use vstd::string::group_string_axioms;

/// A base64 decoding error (`base64::DecodeError`).
#[verifier::external_type_specification]
#[verifier::external_body]
pub struct ExDecodeError(base64::DecodeError);

/// A UTF-8 decoding error (`std::str::Utf8Error`).
#[verifier::external_type_specification]
#[verifier::external_body]
pub struct ExUtf8Error(std::str::Utf8Error);

/// An OpenSSL error stack (`openssl::error::ErrorStack`).
#[verifier::external_type_specification]
#[verifier::external_body]
pub struct ExErrorStack(openssl::error::ErrorStack);

/// The marker of public keys (`openssl::pkey::Public`).
#[verifier::external_type_specification]
#[verifier::external_body]
pub struct ExPublic(openssl::pkey::Public);

/// Why a JWT-SVID is not valid.
pub enum Error {
    InvalidJoseEncoding(usize),
    /// Header or claims are not the expected JSON; holds the decoder's message.
    DeserializeJson(String),
    InvalidAlgorithm(KeyType),
    InvalidJWTType(JWTType),
    InvalidBase64Encoding(base64::DecodeError),
    InvalidUTF8Encoding(std::str::Utf8Error),
    ExpiredToken { expiry: u64, current: u64 },
    InvalidAudience(String),
    PublicKeyNotInTrustBundle(String),
    CannotConvertDerToEcdsaPublicKey(openssl::error::ErrorStack),
    CannotConvertSignatureToEcdsaSignature(openssl::error::ErrorStack),
    SignatureVerificationErrorEcdsa(openssl::error::ErrorStack),
    InvalidSignature,
    ECGroupFromNID(openssl::error::ErrorStack),
    BigNumberFromSlice(openssl::error::ErrorStack),
    ECKeyFromPubKeyAffineCoordinates(openssl::error::ErrorStack),
    Base64DecodeCoordinates(base64::DecodeError),
}

/// The largest byte length of a value in memory (`isize::MAX`).
pub open spec fn fits_in_memory(len: nat) -> bool {
    len <= usize::MAX / 2
}

/// The bytes that standard base64 without padding (`base64::STANDARD_NO_PAD`) decodes
/// `text` to; `None` when `text` is not such base64.
pub uninterp spec fn base64_no_pad_decoding(text: Seq<char>) -> Option<Seq<u8>>;

/// Decodes `text` with `base64::decode_config(text, base64::STANDARD_NO_PAD)`. The result
/// is `base64_no_pad_decoding(text)`; decoded output is never longer than its input (three
/// bytes per four symbols). `decode_config` panics when the length computations of its output
/// buffer overflow, which the bound on the input leaves out.
#[verifier::external_body]
fn base64_decode(text: &str) -> (r: Result<Vec<u8>, base64::DecodeError>)
    requires
        fits_in_memory(vstd::utf8::encode_utf8(text@).len()),
    ensures
        r is Ok <==> base64_no_pad_decoding(text@) is Some,
        r matches Ok(v) ==> v@ == base64_no_pad_decoding(text@)->0 && v@.len()
            <= vstd::utf8::encode_utf8(text@).len(),
{
    base64::decode_config(text, base64::STANDARD_NO_PAD)
}

/// Decodes bytes as UTF-8 (`std::str::from_utf8`, then copies the text into a `String`).
/// It succeeds exactly on valid UTF-8 (`vstd::utf8::valid_utf8`) and gives the characters the
/// bytes encode (`vstd::utf8::decode_utf8`).
#[verifier::external_body]
fn utf8_decode(bytes: &[u8]) -> (r: Result<String, std::str::Utf8Error>)
    ensures
        r is Ok <==> valid_utf8(bytes@),
        r matches Ok(s) ==> s@ == decode_utf8(bytes@),
{
    std::str::from_utf8(bytes).map(|s| s.to_string())
}

/// The SHA-256 digest of the bytes.
pub uninterp spec fn sha256_digest(data: Seq<u8>) -> Seq<u8>;

/// Hashes with `openssl::sha::sha256`: the result is `sha256_digest(data)`, 32 bytes long.
#[verifier::external_body]
fn sha256(data: &[u8]) -> (r: Vec<u8>)
    ensures
        r@ == sha256_digest(data@),
        r@.len() == 32,
{
    openssl::sha::sha256(data).to_vec()
}

/// Whether a DER-encoded ECDSA signature verifies a digest under the P-256 public key with the
/// given big-endian affine coordinates.
pub uninterp spec fn ecdsa_p256_verifies(x: Seq<u8>, y: Seq<u8>, signature_der: Seq<u8>, digest: Seq<u8>) -> bool;

/// The big-endian affine coordinates are a point of P-256 that
/// `EcKey::from_public_key_affine_coordinates` accepts as a public key.
pub uninterp spec fn p256_point_valid(x: Seq<u8>, y: Seq<u8>) -> bool;

/// The bytes are a DER ECDSA signature that `EcdsaSig::from_der` reads.
pub uninterp spec fn ecdsa_der_parses(signature_der: Seq<u8>) -> bool;

/// Verifies an ECDSA P-256 signature with OpenSSL: the group
/// (`EcGroup::from_curve_name(Nid::X9_62_PRIME256V1)`), the coordinates (`BigNum::from_slice`),
/// the public key (`EcKey::from_public_key_affine_coordinates`), the signature
/// (`EcdsaSig::from_der`) and the check (`EcdsaSig::verify`). It gives a verdict exactly when
/// the coordinates are a point of the curve and the signature is DER, and the verdict is
/// `ecdsa_p256_verifies` of the bytes; otherwise the error of the step that refuses them.
/// `BigNum::from_slice` and `EcdsaSig::verify` assert that their lengths fit a C `int`; the
/// bounds leave those inputs out.
#[verifier::external_body]
fn ecdsa_p256_verify(x: &[u8], y: &[u8], signature_der: &[u8], digest: &[u8]) -> (r: Result<bool, Error>)
    requires
        x@.len() <= 0x7fff_ffff,
        y@.len() <= 0x7fff_ffff,
        digest@.len() <= 0x7fff_ffff,
    ensures
        r is Ok <==> (p256_point_valid(x@, y@) && ecdsa_der_parses(signature_der@)),
        r matches Ok(v) ==> v == ecdsa_p256_verifies(x@, y@, signature_der@, digest@),
        r matches Err(e) ==> (e is ECKeyFromPubKeyAffineCoordinates || e is CannotConvertSignatureToEcdsaSignature),
        r matches Err(Error::ECKeyFromPubKeyAffineCoordinates(_)) ==> !p256_point_valid(x@, y@),
        r matches Err(Error::CannotConvertSignatureToEcdsaSignature(_)) ==> (p256_point_valid(x@, y@) && !ecdsa_der_parses(signature_der@)),
{
    let group = openssl::ec::EcGroup::from_curve_name(openssl::nid::Nid::X9_62_PRIME256V1)
        .map_err(Error::ECGroupFromNID)?;
    let x = openssl::bn::BigNum::from_slice(x).map_err(Error::BigNumberFromSlice)?;
    let y = openssl::bn::BigNum::from_slice(y).map_err(Error::BigNumberFromSlice)?;
    let key = openssl::ec::EcKey::from_public_key_affine_coordinates(&group, &x, &y)
        .map_err(Error::ECKeyFromPubKeyAffineCoordinates)?;
    let signature = openssl::ecdsa::EcdsaSig::from_der(signature_der)
        .map_err(Error::CannotConvertSignatureToEcdsaSignature)?;
    signature.verify(digest, &key).map_err(Error::SignatureVerificationErrorEcdsa)
}

/// A JWT-SVID split into its parts: the JSON texts of header and claims, the signature (as
/// text and decoded), and the SHA-256 digest of the signed input `header.claims`.
pub struct DecodedJwtSvid {
    pub header_json: String,
    pub claims_json: String,
    pub signature_text: String,
    pub signature: Vec<u8>,
    pub digest: Vec<u8>,
}

/// The three base64 parts of a token all decode, and header and claims are UTF-8.
pub open spec fn frames(parts: Seq<Seq<char>>) -> bool {
    &&& parts.len() == 3
    &&& base64_no_pad_decoding(parts[0]) is Some
    &&& base64_no_pad_decoding(parts[1]) is Some
    &&& base64_no_pad_decoding(parts[2]) is Some
    &&& valid_utf8(base64_no_pad_decoding(parts[0])->0)
    &&& valid_utf8(base64_no_pad_decoding(parts[1])->0)
}

/// Splits a JWT-SVID in compact form (`header.claims.signature`, each part base64 without
/// padding) into what validation checks. Errors, in the order checked: a part count other than
/// three; a part (header, claims, signature, in that order) that is not base64; a header or
/// claims that is not UTF-8.
pub fn decode_jwt_svid_compact(jwt_svid_compact: &str) -> (r: Result<DecodedJwtSvid, Error>)
    requires
        fits_in_memory(vstd::utf8::encode_utf8(jwt_svid_compact@).len()),
    ensures
        ({
            let parts = split_on(jwt_svid_compact@, '.');
            &&& (r is Ok <==> frames(parts))
            &&& (parts.len() != 3 ==> (r matches Err(Error::InvalidJoseEncoding(n)) && n == parts.len()))
            &&& (parts.len() == 3 && (base64_no_pad_decoding(parts[0]) is None || base64_no_pad_decoding(parts[1]) is None
                || base64_no_pad_decoding(parts[2]) is None) ==> r matches Err(Error::InvalidBase64Encoding(_)))
            &&& (parts.len() == 3 && base64_no_pad_decoding(parts[0]) is Some && base64_no_pad_decoding(parts[1]) is Some
                && base64_no_pad_decoding(parts[2]) is Some && !frames(parts) ==> r matches Err(Error::InvalidUTF8Encoding(_)))
            &&& (r matches Ok(d) ==> {
                &&& d.header_json@ == decode_utf8(base64_no_pad_decoding(parts[0])->0)
                &&& d.claims_json@ == decode_utf8(base64_no_pad_decoding(parts[1])->0)
                &&& d.signature_text@ == parts[2]
                &&& d.signature@ == base64_no_pad_decoding(parts[2])->0
                &&& d.digest@.len() == 32
                &&& d.digest@ == sha256_digest(vstd::utf8::encode_utf8(parts[0] + seq!['.'] + parts[1]))
            })
        }),
{
    let parts = split_chars(jwt_svid_compact, '.');
    let ghost pieces = split_on(jwt_svid_compact@, '.');
    if parts.len() != 3 {
        return Err(Error::InvalidJoseEncoding(parts.len()));
    }
    proof {
        lemma_split_join(jwt_svid_compact@, '.');
        lemma_split_piece_bytes(jwt_svid_compact@, '.', 0);
        lemma_split_piece_bytes(jwt_svid_compact@, '.', 1);
        lemma_split_piece_bytes(jwt_svid_compact@, '.', 2);
        assert(parts@[0]@ == pieces[0]);
        assert(parts@[1]@ == pieces[1]);
        assert(parts@[2]@ == pieces[2]);
    }
    let mut data = parts[0].clone();
    data.append(".");
    proof {
        reveal_strlit(".");
    }
    data.append(parts[1].as_str());
    assert(data@ =~= pieces[0] + seq!['.'] + pieces[1]);
    let digest = sha256(data.as_str().as_bytes());
    let signature_text = parts[2].clone();
    let header_bytes = match base64_decode(parts[0].as_str()) {
        Ok(v) => v,
        Err(e) => {
            return Err(Error::InvalidBase64Encoding(e));
        },
    };
    let claims_bytes = match base64_decode(parts[1].as_str()) {
        Ok(v) => v,
        Err(e) => {
            return Err(Error::InvalidBase64Encoding(e));
        },
    };
    let signature = match base64_decode(parts[2].as_str()) {
        Ok(v) => v,
        Err(e) => {
            return Err(Error::InvalidBase64Encoding(e));
        },
    };
    let header_json = match utf8_decode(header_bytes.as_slice()) {
        Ok(s) => s,
        Err(e) => {
            return Err(Error::InvalidUTF8Encoding(e));
        },
    };
    let claims_json = match utf8_decode(claims_bytes.as_slice()) {
        Ok(s) => s,
        Err(e) => {
            return Err(Error::InvalidUTF8Encoding(e));
        },
    };
    Ok(DecodedJwtSvid { header_json, claims_json, signature_text, signature, digest })
}


/// `i` is the first key of the list with the given key id.
pub open spec fn first_key_with_kid(keys: Seq<JWK>, kid: Seq<char>, i: int) -> bool {
    &&& 0 <= i < keys.len()
    &&& keys[i].kid@ == kid
    &&& forall|j: int| 0 <= j < i ==> (#[trigger] keys[j]).kid@ != kid
}

/// Some key of the list has the given key id.
pub open spec fn has_kid(keys: Seq<JWK>, kid: Seq<char>) -> bool {
    exists|i: int| 0 <= i < keys.len() && (#[trigger] keys[i]).kid@ == kid
}

/// The header and claims pass every check that does not involve the signature: the type is
/// JWT, the token has not expired at `time`, the audience is listed, the trust bundle has the
/// key and the algorithm is ES256.
pub open spec fn passes_claim_checks(
    header: JWTHeader,
    claims: JWTClaims,
    trust_bundle: TrustBundle,
    audience: Seq<char>,
    time: u64,
) -> bool {
    &&& header.jwt_type == JWTType::JWT
    &&& claims.expiry >= time
    &&& claims.audience.deep_view().contains(audience)
    &&& has_kid(trust_bundle.jwt_key_set.keys@, header.key_id@)
    &&& header.algorithm == KeyType::ES256
}

/// The errors that come from checking the signature itself.
pub open spec fn is_signature_error(e: Error) -> bool {
    match e {
        Error::ECGroupFromNID(_) | Error::Base64DecodeCoordinates(_) | Error::BigNumberFromSlice(_)
        | Error::ECKeyFromPubKeyAffineCoordinates(_)
        | Error::CannotConvertSignatureToEcdsaSignature(_)
        | Error::SignatureVerificationErrorEcdsa(_) | Error::InvalidSignature => true,
        _ => false,
    }
}

/// The key selected for a key id (the first key with that id) has coordinates small enough
/// for OpenSSL's integer conversion.
pub open spec fn selected_key_fits(keys: Seq<JWK>, kid: Seq<char>) -> bool {
    forall|i: int|
        #[trigger] first_key_with_kid(keys, kid, i) ==> {
            &&& vstd::utf8::encode_utf8(keys[i].x@).len() <= 0x7fff_ffff
            &&& vstd::utf8::encode_utf8(keys[i].y@).len() <= 0x7fff_ffff
        }
}

/// A key accepts a signature of a digest: its coordinates decode from base64 to a point of
/// P-256, the signature is DER, and the ECDSA check passes.
pub open spec fn key_accepts(key: JWK, signature: Seq<u8>, digest: Seq<u8>) -> bool {
    &&& base64_no_pad_decoding(key.x@) is Some
    &&& base64_no_pad_decoding(key.y@) is Some
    &&& p256_point_valid(base64_no_pad_decoding(key.x@)->0, base64_no_pad_decoding(key.y@)->0)
    &&& ecdsa_der_parses(signature)
    &&& ecdsa_p256_verifies(
        base64_no_pad_decoding(key.x@)->0,
        base64_no_pad_decoding(key.y@)->0,
        signature,
        digest,
    )
}

/// A key can check a signature: its coordinates decode from base64 to a point of P-256 and the
/// signature is DER.
pub open spec fn key_usable(key: JWK, signature: Seq<u8>) -> bool {
    &&& base64_no_pad_decoding(key.x@) is Some
    &&& base64_no_pad_decoding(key.y@) is Some
    &&& p256_point_valid(base64_no_pad_decoding(key.x@)->0, base64_no_pad_decoding(key.y@)->0)
    &&& ecdsa_der_parses(signature)
}

/// A decoded JWT-SVID is accepted: header and claims pass every check, and the first key of the
/// trust bundle with the token's key id accepts its signature of its digest.
pub open spec fn accepts(
    decoded: DecodedJwtSvid,
    header: JWTHeader,
    claims: JWTClaims,
    trust_bundle: TrustBundle,
    audience: Seq<char>,
    time: u64,
) -> bool {
    &&& passes_claim_checks(header, claims, trust_bundle, audience, time)
    &&& exists|i: int|
        #[trigger] first_key_with_kid(trust_bundle.jwt_key_set.keys@, header.key_id@, i) && key_accepts(
            trust_bundle.jwt_key_set.keys@[i],
            decoded.signature@,
            decoded.digest@,
        )
}

proof fn lemma_first_key_unique(keys: Seq<JWK>, kid: Seq<char>, i: int, j: int)
    requires
        first_key_with_kid(keys, kid, i),
        first_key_with_kid(keys, kid, j),
    ensures
        i == j,
{
    assert(keys[i].kid@ == kid);
    assert(keys[j].kid@ == kid);
}

/// Acceptance is monotone in time: a JWT-SVID accepted at a time is accepted at every earlier
/// time, as time enters only through the expiry.
pub proof fn lemma_acceptance_monotone_in_time(
    decoded: DecodedJwtSvid,
    header: JWTHeader,
    claims: JWTClaims,
    trust_bundle: TrustBundle,
    audience: Seq<char>,
    earlier: u64,
    later: u64,
)
    requires
        earlier <= later,
        accepts(decoded, header, claims, trust_bundle, audience, later),
    ensures
        accepts(decoded, header, claims, trust_bundle, audience, earlier),
{
}

/// The validator of JWT-SVIDs.
pub struct JWTSVIDValidator {}

impl JWTSVIDValidator {
    /// A validator.
    pub fn new() -> (r: JWTSVIDValidator) {
        JWTSVIDValidator {  }
    }

    fn find_key<'a>(keys: &'a Vec<JWK>, kid: &String) -> (r: Option<&'a JWK>)
        ensures
            r is None <==> !has_kid(keys@, kid@),
            r matches Some(k) ==> exists|i: int| first_key_with_kid(keys@, kid@, i) && *k == keys@[i],
    {
        let mut i: usize = 0;
        while i < keys.len()
            invariant
                i <= keys.len(),
                forall|j: int| 0 <= j < i ==> (#[trigger] keys@[j]).kid@ != kid@,
            decreases keys.len() - i,
        {
            if keys[i].kid == *kid {
                assert(first_key_with_kid(keys@, kid@, i as int));
                return Some(&keys[i]);
            }
            i = i + 1;
        }
        None
    }

    fn audience_listed(claims_audience: &Vec<String>, audience: &str) -> (r: bool)
        ensures
            r == claims_audience.deep_view().contains(audience@),
    {
        let wanted = audience.to_owned();
        let mut i: usize = 0;
        while i < claims_audience.len()
            invariant
                i <= claims_audience.len(),
                wanted@ == audience@,
                forall|j: int| 0 <= j < i ==> claims_audience@[j]@ != audience@,
            decreases claims_audience.len() - i,
        {
            if claims_audience[i] == wanted {
                assert(claims_audience.deep_view()[i as int] == audience@);
                return true;
            }
            i = i + 1;
        }
        assert forall|j: int| 0 <= j < claims_audience.deep_view().len() implies claims_audience.deep_view()[j] != audience@ by {}
        false
    }

    /// Checks a decoded JWT-SVID against a trust bundle, an audience and the current time.
    /// Errors, in the order checked: a type other than JWT; an expiry before `time`; an
    /// audience that the claims do not list; a key id that the trust bundle lacks; an algorithm
    /// other than ES256; then a failure of the ECDSA P-256 check of the signature with the first
    /// key of that id. Success gives header, claims and signature text.
    pub fn check_jwt_svid(
        &self,
        decoded: DecodedJwtSvid,
        header: JWTHeader,
        claims: JWTClaims,
        trust_bundle: &TrustBundle,
        audience: &str,
        time: u64,
    ) -> (r: Result<JWTSVID, Error>)
        requires
            selected_key_fits(trust_bundle.jwt_key_set.keys@, header.key_id@),
            decoded.digest@.len() <= 0x7fff_ffff,
        ensures
            header.jwt_type != JWTType::JWT ==> r == Err::<JWTSVID, Error>(Error::InvalidJWTType(header.jwt_type)),
            header.jwt_type == JWTType::JWT && claims.expiry < time ==> r == Err::<JWTSVID, Error>(
                Error::ExpiredToken { expiry: claims.expiry, current: time },
            ),
            header.jwt_type == JWTType::JWT && claims.expiry >= time && !claims.audience.deep_view().contains(audience@)
                ==> (r matches Err(Error::InvalidAudience(a)) && a@ == audience@),
            header.jwt_type == JWTType::JWT && claims.expiry >= time && claims.audience.deep_view().contains(audience@)
                && !has_kid(trust_bundle.jwt_key_set.keys@, header.key_id@)
                ==> (r matches Err(Error::PublicKeyNotInTrustBundle(k)) && k@ == header.key_id@),
            header.jwt_type == JWTType::JWT && claims.expiry >= time && claims.audience.deep_view().contains(audience@)
                && has_kid(trust_bundle.jwt_key_set.keys@, header.key_id@) && header.algorithm != KeyType::ES256
                ==> r == Err::<JWTSVID, Error>(Error::InvalidAlgorithm(header.algorithm)),
            passes_claim_checks(header, claims, *trust_bundle, audience@, time) ==> (r is Ok || (r matches Err(e) && is_signature_error(e))),
            r matches Err(Error::Base64DecodeCoordinates(_)) ==> exists|i: int|
                first_key_with_kid(trust_bundle.jwt_key_set.keys@, header.key_id@, i)
                && (base64_no_pad_decoding(trust_bundle.jwt_key_set.keys@[i].x@) is None
                    || base64_no_pad_decoding(trust_bundle.jwt_key_set.keys@[i].y@) is None),
            r is Ok <==> accepts(decoded, header, claims, *trust_bundle, audience@, time),
            passes_claim_checks(header, claims, *trust_bundle, audience@, time) && (forall|i: int|
                #[trigger] first_key_with_kid(trust_bundle.jwt_key_set.keys@, header.key_id@, i) ==> key_usable(
                    trust_bundle.jwt_key_set.keys@[i],
                    decoded.signature@,
                )) ==> (r is Ok || r matches Err(Error::InvalidSignature)),
            r matches Err(Error::InvalidSignature) ==> passes_claim_checks(header, claims, *trust_bundle, audience@, time)
                && (exists|i: int| #[trigger] first_key_with_kid(trust_bundle.jwt_key_set.keys@, header.key_id@, i)
                && key_usable(trust_bundle.jwt_key_set.keys@[i], decoded.signature@) && !key_accepts(
                trust_bundle.jwt_key_set.keys@[i],
                decoded.signature@,
                decoded.digest@,
            )),
            r matches Ok(svid) ==> {
                &&& passes_claim_checks(header, claims, *trust_bundle, audience@, time)
                &&& svid.header == header
                &&& svid.claims == claims
                &&& svid.signature == decoded.signature_text
            },
    {
        if header.jwt_type != JWTType::JWT {
            return Err(Error::InvalidJWTType(header.jwt_type));
        }
        if claims.expiry < time {
            return Err(Error::ExpiredToken { expiry: claims.expiry, current: time });
        }
        if !Self::audience_listed(&claims.audience, audience) {
            return Err(Error::InvalidAudience(audience.to_owned()));
        }
        let jwk = match Self::find_key(&trust_bundle.jwt_key_set.keys, &header.key_id) {
            Some(k) => k,
            None => {
                return Err(Error::PublicKeyNotInTrustBundle(header.key_id.clone()));
            },
        };
        if header.algorithm != KeyType::ES256 {
            return Err(Error::InvalidAlgorithm(header.algorithm));
        }
        let ghost keys = trust_bundle.jwt_key_set.keys@;
        let ghost kid = header.key_id@;
        let ghost i = choose|i: int| first_key_with_kid(keys, kid, i) && *jwk == keys[i];
        assert(first_key_with_kid(keys, kid, i));
        proof {
            assert forall|j: int| #[trigger] first_key_with_kid(keys, kid, j) implies j == i by {
                lemma_first_key_unique(keys, kid, i, j);
            }
        }
        let x_bytes = match base64_decode(jwk.x.as_str()) {
            Ok(v) => v,
            Err(e) => {
                return Err(Error::Base64DecodeCoordinates(e));
            },
        };
        let y_bytes = match base64_decode(jwk.y.as_str()) {
            Ok(v) => v,
            Err(e) => {
                return Err(Error::Base64DecodeCoordinates(e));
            },
        };
        let valid = match ecdsa_p256_verify(
            x_bytes.as_slice(),
            y_bytes.as_slice(),
            decoded.signature.as_slice(),
            decoded.digest.as_slice(),
        ) {
            Ok(v) => v,
            Err(e) => {
                return Err(e);
            },
        };
        if valid {
            Ok(JWTSVID { header, claims, signature: decoded.signature_text })
        } else {
            Err(Error::InvalidSignature)
        }
    }
}

} // verus!
