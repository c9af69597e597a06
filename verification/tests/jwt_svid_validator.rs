use iot_edge_spiffe::core_objects::{
    Crv, JWKSet, JWTClaims, JWTHeader, JWTType, KeyType, KeyUse, Kty, TrustBundle, JWK,
};
use iot_edge_spiffe::jwt_svid_validator::{decode_jwt_svid_compact, Error, JWTSVIDValidator};
use openssl::bn::{BigNum, BigNumContext};
use openssl::ec::{EcGroup, EcKey};
use openssl::ecdsa::EcdsaSig;
use openssl::nid::Nid;
use openssl::pkey::Private;

const KID: &str = "key-1";

fn b64(bytes: &[u8]) -> String {
    base64::encode_config(bytes, base64::STANDARD_NO_PAD)
}

struct Signer {
    key: EcKey<Private>,
    trust_bundle: TrustBundle,
}

fn signer() -> Signer {
    let group = EcGroup::from_curve_name(Nid::X9_62_PRIME256V1).unwrap();
    let key = EcKey::generate(&group).unwrap();
    let mut ctx = BigNumContext::new().unwrap();
    let mut x = BigNum::new().unwrap();
    let mut y = BigNum::new().unwrap();
    key.public_key()
        .affine_coordinates_gfp(&group, &mut x, &mut y, &mut ctx)
        .unwrap();
    let jwk = JWK {
        x: b64(&x.to_vec()),
        y: b64(&y.to_vec()),
        kty: Kty::EC,
        crv: Crv::P256,
        kid: KID.to_string(),
        key_use: KeyUse::JWTSVID,
    };
    let key_set = |keys: Vec<JWK>| JWKSet { keys, spiffe_refresh_hint: 0, spiffe_sequence_number: 0 };
    let trust_bundle = TrustBundle {
        trust_domain: "trust_domain".to_string(),
        jwt_key_set: key_set(vec![jwk]),
        x509_key_set: key_set(Vec::new()),
    };
    Signer { key, trust_bundle }
}

fn header(algorithm: KeyType, kid: &str, jwt_type: JWTType) -> JWTHeader {
    JWTHeader { algorithm, key_id: kid.to_string(), jwt_type }
}

fn claims(subject: &str, audience: &str, expiry: u64) -> JWTClaims {
    JWTClaims {
        subject: subject.to_string(),
        audience: vec![audience.to_string()],
        expiry,
        issued_at: 0,
        other_identities: Vec::new(),
    }
}

fn header_json(kid: &str) -> String {
    format!("{{\"alg\":\"ES256\",\"kid\":\"{}\",\"typ\":\"JWT\"}}", kid)
}

fn claims_json(subject: &str) -> String {
    format!(
        "{{\"sub\":\"{}\",\"aud\":[\"myaudience\"],\"exp\":10,\"iat\":0,\"other_identities\":[]}}",
        subject
    )
}

fn sign(signer: &Signer, header_json: &str, claims_json: &str) -> String {
    let signed = format!("{}.{}", b64(header_json.as_bytes()), b64(claims_json.as_bytes()));
    let digest = openssl::sha::sha256(signed.as_bytes());
    let signature = EcdsaSig::sign(&digest, &signer.key).unwrap().to_der().unwrap();
    format!("{}.{}", signed, b64(&signature))
}

#[test]
fn validate_happy_path() {
    let signer = signer();
    let token = sign(&signer, &header_json(KID), &claims_json("trust_domain/path"));
    let decoded = match decode_jwt_svid_compact(&token) {
        Ok(d) => d,
        Err(_) => panic!("token not framed"),
    };
    assert_eq!(decoded.header_json, header_json(KID));
    assert_eq!(decoded.claims_json, claims_json("trust_domain/path"));
    assert_eq!(decoded.signature_text, token.split('.').nth(2).unwrap());
    assert_eq!(decoded.digest.len(), 32);

    let validator = JWTSVIDValidator::new();
    let result = validator.check_jwt_svid(
        decoded,
        header(KeyType::ES256, KID, JWTType::JWT),
        claims("trust_domain/path", "myaudience", 10),
        &signer.trust_bundle,
        "myaudience",
        0,
    );
    match result {
        Ok(svid) => {
            assert_eq!(svid.claims.subject, "trust_domain/path");
            assert_eq!(svid.header.key_id, KID);
            assert_eq!(svid.signature, token.split('.').nth(2).unwrap());
        }
        Err(_) => panic!("valid token refused"),
    }
}

#[test]
fn validate_invalid_signature() {
    let signer = signer();
    let genuine = sign(&signer, &header_json(KID), &claims_json("trust_domain/path"));
    let stolen_signature = genuine.split('.').nth(2).unwrap().to_string();
    let forged = sign(&signer, &header_json(KID), &claims_json("trust_domain/hack"));
    let parts: Vec<&str> = forged.split('.').collect();
    let token = format!("{}.{}.{}", parts[0], parts[1], stolen_signature);

    let decoded = match decode_jwt_svid_compact(&token) {
        Ok(d) => d,
        Err(_) => panic!("token not framed"),
    };
    let result = JWTSVIDValidator::new().check_jwt_svid(
        decoded,
        header(KeyType::ES256, KID, JWTType::JWT),
        claims("trust_domain/hack", "myaudience", 10),
        &signer.trust_bundle,
        "myaudience",
        0,
    );
    assert!(matches!(result, Err(Error::InvalidSignature)));
}

#[test]
fn validate_invalid_token() {
    let result = decode_jwt_svid_compact("dummy");
    assert!(matches!(result, Err(Error::InvalidJoseEncoding(1))));

    let result = decode_jwt_svid_compact("header.claim.token");
    assert!(matches!(result, Err(Error::InvalidBase64Encoding(_))));

    let token = format!(
        "{}.{}.{}",
        base64::encode("header"),
        base64::encode("claim"),
        base64::encode("dummy")
    );
    match decode_jwt_svid_compact(&token) {
        Ok(decoded) => {
            assert_eq!(decoded.header_json, "header");
            assert_eq!(decoded.claims_json, "claim");
            assert_eq!(decoded.signature, b"dummy".to_vec());
            assert!(serde_json::from_str::<serde_json::Value>(&decoded.header_json).is_err());
        }
        Err(_) => panic!("framing is valid"),
    }
}

#[test]
fn decode_refuses_invalid_utf8() {
    let token = format!("{}.{}.{}", b64(&[0xff, 0xfe]), b64(b"claim"), b64(b"sig"));
    assert!(matches!(decode_jwt_svid_compact(&token), Err(Error::InvalidUTF8Encoding(_))));
    assert!(matches!(decode_jwt_svid_compact("a.b.c.d"), Err(Error::InvalidJoseEncoding(4))));
    assert!(matches!(decode_jwt_svid_compact(""), Err(Error::InvalidJoseEncoding(1))));
}

fn check_with(
    signer: &Signer,
    header_value: JWTHeader,
    claims_value: JWTClaims,
    audience: &str,
    time: u64,
) -> Result<(), Error> {
    let token = sign(signer, &header_json(KID), &claims_json("trust_domain/path"));
    let decoded = match decode_jwt_svid_compact(&token) {
        Ok(d) => d,
        Err(_) => panic!("token not framed"),
    };
    JWTSVIDValidator::new()
        .check_jwt_svid(decoded, header_value, claims_value, &signer.trust_bundle, audience, time)
        .map(|_| ())
}

#[test]
fn validate_expired() {
    let signer = signer();
    let result = check_with(
        &signer,
        header(KeyType::ES256, KID, JWTType::JWT),
        claims("trust_domain/path", "myaudience", 10),
        "myaudience",
        12,
    );
    assert!(matches!(result, Err(Error::ExpiredToken { expiry: 10, current: 12 })));
}

#[test]
fn validate_jwt_invalid_audience() {
    let signer = signer();
    let result = check_with(
        &signer,
        header(KeyType::ES256, KID, JWTType::JWT),
        claims("trust_domain/path", "myaudience", 10),
        "wrongaudience",
        0,
    );
    match result {
        Err(Error::InvalidAudience(audience)) => assert_eq!(audience, "wrongaudience"),
        _ => panic!("expected an audience error"),
    }
}

#[test]
fn validate_jwt_invalid_algorithm() {
    let signer = signer();
    let result = check_with(
        &signer,
        header(KeyType::PS512, KID, JWTType::JWT),
        claims("trust_domain/path", "trust_domain/myaudience", 10),
        "trust_domain/myaudience",
        0,
    );
    assert!(matches!(result, Err(Error::InvalidAlgorithm(KeyType::PS512))));
}

#[test]
fn validate_jwt_invalid_kid() {
    let signer = signer();
    let result = check_with(
        &signer,
        header(KeyType::ES256, "dummy", JWTType::JWT),
        claims("trust_domain/path", "trust_domain/myaudience", 10),
        "trust_domain/myaudience",
        0,
    );
    match result {
        Err(Error::PublicKeyNotInTrustBundle(kid)) => assert_eq!(kid, "dummy"),
        _ => panic!("expected a missing key"),
    }
}

#[test]
fn validate_jwt_invalid_jwt_type() {
    let signer = signer();
    let result = check_with(
        &signer,
        header(KeyType::ES256, KID, JWTType::JOSE),
        claims("trust_domain/path", "trust_domain/myaudience", 10),
        "trust_domain/myaudience",
        0,
    );
    assert!(matches!(result, Err(Error::InvalidJWTType(JWTType::JOSE))));
}

#[test]
fn type_is_checked_before_expiry() {
    let signer = signer();
    let result = check_with(
        &signer,
        header(KeyType::PS256, "other", JWTType::JOSE),
        claims("trust_domain/path", "a", 1),
        "b",
        5,
    );
    assert!(matches!(result, Err(Error::InvalidJWTType(JWTType::JOSE))));
}

#[test]
fn bad_key_coordinates_are_reported() {
    let mut signer = signer();
    signer.trust_bundle.jwt_key_set.keys[0].x = "!!".to_string();
    let result = check_with(
        &signer,
        header(KeyType::ES256, KID, JWTType::JWT),
        claims("trust_domain/path", "myaudience", 10),
        "myaudience",
        0,
    );
    assert!(matches!(result, Err(Error::Base64DecodeCoordinates(_))));
}

#[test]
fn bad_signature_encoding_is_reported() {
    let signer = signer();
    let token = format!(
        "{}.{}.{}",
        b64(header_json(KID).as_bytes()),
        b64(claims_json("trust_domain/path").as_bytes()),
        b64(b"not a der signature")
    );
    let decoded = match decode_jwt_svid_compact(&token) {
        Ok(d) => d,
        Err(_) => panic!("token not framed"),
    };
    let result = JWTSVIDValidator::new().check_jwt_svid(
        decoded,
        header(KeyType::ES256, KID, JWTType::JWT),
        claims("trust_domain/path", "myaudience", 10),
        &signer.trust_bundle,
        "myaudience",
        0,
    );
    assert!(matches!(result, Err(Error::CannotConvertSignatureToEcdsaSignature(_))));
}

#[test]
fn key_type_curves() {
    assert_eq!(KeyType::ES256.kty_crv(), (Kty::EC, Crv::P256));
    assert_eq!(KeyType::ES384.kty_crv(), (Kty::EC, Crv::P384));
    assert_eq!(KeyType::ES512.kty_crv(), (Kty::EC, Crv::P521));
}

#[test]
fn point_off_the_curve_is_refused() {
    let mut signer = signer();
    signer.trust_bundle.jwt_key_set.keys[0].x = b64(&[1]);
    signer.trust_bundle.jwt_key_set.keys[0].y = b64(&[1]);
    let result = check_with(
        &signer,
        header(KeyType::ES256, KID, JWTType::JWT),
        claims("trust_domain/path", "myaudience", 10),
        "myaudience",
        0,
    );
    assert!(matches!(result, Err(Error::ECKeyFromPubKeyAffineCoordinates(_))));
}

#[test]
fn first_key_with_the_id_is_used() {
    let signer = signer();
    let other = self::signer();
    let mut trust_bundle = other.trust_bundle;
    trust_bundle.jwt_key_set.keys.extend(signer.trust_bundle.jwt_key_set.keys.iter().cloned());
    let token = sign(&signer, &header_json(KID), &claims_json("trust_domain/path"));
    let decoded = match decode_jwt_svid_compact(&token) {
        Ok(d) => d,
        Err(_) => panic!("token not framed"),
    };
    let result = JWTSVIDValidator::new().check_jwt_svid(
        decoded,
        header(KeyType::ES256, KID, JWTType::JWT),
        claims("trust_domain/path", "myaudience", 10),
        &trust_bundle,
        "myaudience",
        0,
    );
    assert!(matches!(result, Err(Error::InvalidSignature)));
}
