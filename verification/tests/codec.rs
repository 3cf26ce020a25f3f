use groth16_verifier::decimal::parse_field_element;
use groth16_verifier::deserialization::{
    deserialize_public_inputs, fq_mod_dec, fr_mod_dec, Proof, VKey,
};
use groth16_verifier::errors::VerificationError;

const FQ_MOD: &str =
    "21888242871839275222246405745257275088696311157297823662689037894645226208583";
const FR_MOD: &str =
    "21888242871839275222246405745257275088548364400416034343698204186575808495617";

fn parse_fq(s: &str) -> Result<Vec<u8>, VerificationError> {
    let m = fq_mod_dec();
    parse_field_element(&s.as_bytes().to_vec(), &m).map(|f| f.digits)
}

#[test]
fn modulus_minus_one_is_accepted() {
    let below = "21888242871839275222246405745257275088696311157297823662689037894645226208582";
    assert!(parse_fq(below).is_ok());
}

#[test]
fn modulus_itself_is_out_of_range() {
    assert_eq!(parse_fq(FQ_MOD), Err(VerificationError::OutOfRange));
}

#[test]
fn values_above_the_modulus_are_out_of_range() {
    let above = "21888242871839275222246405745257275088696311157297823662689037894645226208584";
    assert_eq!(parse_fq(above), Err(VerificationError::OutOfRange));
    let much_larger = "121888242871839275222246405745257275088696311157297823662689037894645226208583";
    assert_eq!(parse_fq(much_larger), Err(VerificationError::OutOfRange));
}

#[test]
fn scalar_modulus_bound_is_the_scalar_one() {
    let m = fr_mod_dec();
    assert_eq!(m, FR_MOD.as_bytes().to_vec());
    let r = deserialize_public_inputs(format!(r#"["{}"]"#, FR_MOD).as_bytes());
    assert_eq!(r.err(), Some(VerificationError::OutOfRange));
    let below = "21888242871839275222246405745257275088548364400416034343698204186575808495616";
    assert!(deserialize_public_inputs(format!(r#"["{}"]"#, below).as_bytes()).is_ok());
}

#[test]
fn malformed_numbers_are_rejected() {
    assert_eq!(parse_fq(""), Err(VerificationError::MalformedNumber));
    assert_eq!(parse_fq("12a3"), Err(VerificationError::MalformedNumber));
    assert_eq!(parse_fq("-5"), Err(VerificationError::MalformedNumber));
    assert_eq!(parse_fq("0x10"), Err(VerificationError::MalformedNumber));
}

#[test]
fn leading_zeros_are_canonicalized() {
    assert_eq!(parse_fq("000123").unwrap(), b"123".to_vec());
    assert_eq!(parse_fq("0000").unwrap(), b"0".to_vec());
    assert_eq!(parse_fq("0").unwrap(), b"0".to_vec());
}

#[test]
fn schema_violations_are_schema_errors() {
    // not an object
    assert_eq!(
        VKey::from_json_u8_slice(b"[]").err(),
        Some(VerificationError::SchemaError)
    );
    // unknown key
    assert_eq!(
        Proof::from_json_u8_slice(br#"{"a": ["1","2"], "b": [["0","0"],["0","0"]], "d": ["1","2"]}"#).err(),
        Some(VerificationError::SchemaError)
    );
    // duplicate key
    assert_eq!(
        Proof::from_json_u8_slice(br#"{"a": ["1","2"], "a": ["1","2"]}"#).err(),
        Some(VerificationError::SchemaError)
    );
    // missing member
    assert_eq!(
        Proof::from_json_u8_slice(br#"{"a": ["1","2"], "b": [["0","0"],["0","0"]]}"#).err(),
        Some(VerificationError::SchemaError)
    );
    // trailing garbage
    assert_eq!(
        deserialize_public_inputs(br#"["1"] x"#).err(),
        Some(VerificationError::SchemaError)
    );
    // escape sequences are not part of the format
    assert_eq!(
        deserialize_public_inputs(br#"["1\2"]"#).err(),
        Some(VerificationError::SchemaError)
    );
    // wrong arity of a point
    assert_eq!(
        Proof::from_json_u8_slice(br#"{"a": ["1"], "b": [["0","0"],["0","0"]], "c": ["1","2"]}"#)
            .err(),
        Some(VerificationError::SchemaError)
    );
}

#[test]
fn numeric_errors_propagate_through_documents() {
    let r = Proof::from_json_u8_slice(
        br#"{"a": ["1","2x"], "b": [["0","0"],["0","0"]], "c": ["1","2"]}"#,
    );
    assert_eq!(r.err(), Some(VerificationError::MalformedNumber));
    let doc = format!(r#"{{"a": ["1","{}"], "b": [["0","0"],["0","0"]], "c": ["1","2"]}}"#, FQ_MOD);
    let r = Proof::from_json_u8_slice(doc.as_bytes());
    assert_eq!(r.err(), Some(VerificationError::OutOfRange));
}

#[test]
fn whitespace_is_tolerated() {
    let r = deserialize_public_inputs(b" [ \"1\" , \t\"2\" ]\n");
    let v = r.unwrap();
    assert_eq!(v.len(), 2);
    assert_eq!(v[0].digits, b"1".to_vec());
    assert_eq!(v[1].digits, b"2".to_vec());
    assert!(VKey::from_json_u8_slice(
        br#" { "alpha" : [ "0" , "0" ] , "beta": [["0","0"],["0","0"]], "gamma": [["0","0"],["0","0"]], "delta": [["0","0"],["0","0"]], "ic" : [ ] } "#
    )
    .is_ok());
}
