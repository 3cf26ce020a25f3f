use groth16_verifier::common::{prepare_proof, prepare_verification_key};
use groth16_verifier::deserialization::{deserialize_public_inputs, Proof, VKey};
use groth16_verifier::errors::{PointTag, VerificationError};
use groth16_verifier::verify::{prepare_public_inputs, verify, verify_from_json};

const VK: &str = r#"{"alpha": ["1","2"], "beta": [["18029695676650738226693292988307914797657423701064905010927197838374790804409","14583779054894525174450323658765874724019480979794335525732096752006891875705"],["2140229616977736810657479771656733941598412651537078903776637920509952744750","11474861747383700316476719153975578001603231366361248090558603872215261634898"]], "gamma": [["10857046999023057135944570762232829481370756359578518086990519993285655852781","11559732032986387107991004021392285783925812861821192530917403151452391805634"],["8495653923123431417604973247489272438418190587263600148770280649306958101930","4082367875863433681332203403145435568316851327593401208105741076214120093531"]], "delta": [["10857046999023057135944570762232829481370756359578518086990519993285655852781","11559732032986387107991004021392285783925812861821192530917403151452391805634"],["8495653923123431417604973247489272438418190587263600148770280649306958101930","4082367875863433681332203403145435568316851327593401208105741076214120093531"]], "ic": [["1","2"], ["1","2"]]}"#;

const PROOF: &str = r#"{"a": ["1368015179489954701390400359078579693043519447331113978918064868415326638035","9918110051302171585080402603319702774565515993150576347155970296011118125764"], "b": [["2725019753478801796453339367788033689375851816420509565303521482350756874229","7273165102799931111715871471550377909735733521218303035754523677688038059653"],["2512659008974376214222774206987427162027254181373325676825515531566330959255","957874124722006818841961785324909313781880061366718538693995380805373202866"]], "c": ["1368015179489954701390400359078579693043519447331113978918064868415326638035","9918110051302171585080402603319702774565515993150576347155970296011118125764"]}"#;

#[test]
fn known_good_fixture_verifies() {
    let r = verify_from_json(VK.as_bytes(), PROOF.as_bytes(), br#"["1"]"#);
    assert_eq!(r, Ok(true));
}

#[test]
fn changed_public_input_fails_to_verify() {
    let r = verify_from_json(VK.as_bytes(), PROOF.as_bytes(), br#"["2"]"#);
    assert_eq!(r, Ok(false));
    let r = verify_from_json(VK.as_bytes(), PROOF.as_bytes(), br#"["123456789"]"#);
    assert_eq!(r, Ok(false));
}

#[test]
fn verification_is_deterministic() {
    let vk = VKey::from_json_u8_slice(VK.as_bytes()).unwrap();
    let proof = Proof::from_json_u8_slice(PROOF.as_bytes()).unwrap();
    let inputs = deserialize_public_inputs(br#"["1"]"#).unwrap();
    let pvk = prepare_verification_key(vk).unwrap();
    let pproof = prepare_proof(proof).unwrap();
    let pinputs = prepare_public_inputs(inputs);
    let first = verify(&pvk, &pproof, &pinputs);
    let second = verify(&pvk, &pproof, &pinputs);
    assert_eq!(first, Ok(true));
    assert_eq!(first, second);
}

#[test]
fn input_count_mismatch_is_structural() {
    let r = verify_from_json(VK.as_bytes(), PROOF.as_bytes(), br#"["1","1"]"#);
    assert_eq!(r, Err(VerificationError::InputCountMismatch));
    let r = verify_from_json(VK.as_bytes(), PROOF.as_bytes(), br#"[]"#);
    assert_eq!(r, Err(VerificationError::InputCountMismatch));
}

#[test]
fn input_count_mismatch_via_prepared_objects() {
    let vk = VKey::from_json_u8_slice(VK.as_bytes()).unwrap();
    let proof = Proof::from_json_u8_slice(PROOF.as_bytes()).unwrap();
    let inputs = deserialize_public_inputs(br#"["1","2","3"]"#).unwrap();
    let pvk = prepare_verification_key(vk).unwrap();
    let pproof = prepare_proof(proof).unwrap();
    let pinputs = prepare_public_inputs(inputs);
    assert_eq!(
        verify(&pvk, &pproof, &pinputs),
        Err(VerificationError::InputCountMismatch)
    );
}

#[test]
fn missing_ic_field_is_schema_error() {
    // the same key document with its "ic" member removed
    let vk = VK.replace(r#", "ic": [["1","2"], ["1","2"]]"#, "");
    assert!(!vk.contains("ic"));
    let r = VKey::from_json_u8_slice(vk.as_bytes());
    assert_eq!(r.err(), Some(VerificationError::SchemaError));
    let r = verify_from_json(vk.as_bytes(), PROOF.as_bytes(), br#"["1"]"#);
    assert_eq!(r, Err(VerificationError::SchemaError));
}

#[test]
fn off_curve_proof_coordinate_is_invalid_point() {
    // bump the x coordinate of `a` by one: no longer on the curve
    let bad = PROOF.replace(
        "1368015179489954701390400359078579693043519447331113978918064868415326638035",
        "1368015179489954701390400359078579693043519447331113978918064868415326638036",
    );
    let proof = Proof::from_json_u8_slice(bad.as_bytes()).unwrap();
    let r = prepare_proof(proof);
    // `c` holds the same coordinate, so the report may name either field
    match r {
        Err(VerificationError::InvalidPoint(tag)) => {
            assert!(matches!(tag, PointTag::A | PointTag::C));
        }
        Err(other) => panic!("expected InvalidPoint, got {:?}", other),
        Ok(_) => panic!("expected InvalidPoint, got a prepared proof"),
    }
    let r = verify_from_json(VK.as_bytes(), bad.as_bytes(), br#"["1"]"#);
    assert!(matches!(r, Err(VerificationError::InvalidPoint(_))));
}

#[test]
fn off_curve_key_point_is_invalid_point() {
    let bad = VK.replacen(r#""alpha": ["1","2"]"#, r#""alpha": ["1","3"]"#, 1);
    let vk = VKey::from_json_u8_slice(bad.as_bytes()).unwrap();
    let r = prepare_verification_key(vk);
    assert_eq!(
        r.err(),
        Some(VerificationError::InvalidPoint(PointTag::Alpha))
    );
}

#[test]
fn corrupted_proof_point_never_verifies() {
    // swap `a` for the group generator: still a valid point, wrong proof
    let forged = PROOF.replacen(
        r#""a": ["1368015179489954701390400359078579693043519447331113978918064868415326638035","9918110051302171585080402603319702774565515993150576347155970296011118125764"]"#,
        r#""a": ["1","2"]"#,
        1,
    );
    let r = verify_from_json(VK.as_bytes(), forged.as_bytes(), br#"["1"]"#);
    assert_eq!(r, Ok(false));
}

#[test]
fn infinity_ic_entry_changes_nothing() {
    // extend ic with the point-at-infinity sentinel and supply a matching
    // extra input: the commitment, and so the verdict, must not change
    let vk = VK.replace(
        r#""ic": [["1","2"], ["1","2"]]"#,
        r#""ic": [["1","2"], ["1","2"], ["0","0"]]"#,
    );
    let r = verify_from_json(vk.as_bytes(), PROOF.as_bytes(), br#"["1","7"]"#);
    assert_eq!(r, Ok(true));
    let r = verify_from_json(vk.as_bytes(), PROOF.as_bytes(), br#"["2","7"]"#);
    assert_eq!(r, Ok(false));
}

#[test]
fn infinity_sentinels_pass_preparation() {
    let vk = VK
        .replace(r#""alpha": ["1","2"]"#, r#""alpha": ["0","0"]"#)
        .replace(
            r#""beta": [["18029695676650738226693292988307914797657423701064905010927197838374790804409","14583779054894525174450323658765874724019480979794335525732096752006891875705"],["2140229616977736810657479771656733941598412651537078903776637920509952744750","11474861747383700316476719153975578001603231366361248090558603872215261634898"]]"#,
            r#""beta": [["0","0"],["0","0"]]"#,
        );
    let vk = VKey::from_json_u8_slice(vk.as_bytes()).unwrap();
    assert!(prepare_verification_key(vk).is_ok());
}

#[test]
fn verdict_with_identity_points_is_a_verdict_not_an_error() {
    // a = (0,0) sentinel: e(-a, b) contributes the identity; the remaining
    // product is not the identity, so the verdict is a clean `false`
    let proof = PROOF.replacen(
        r#""a": ["1368015179489954701390400359078579693043519447331113978918064868415326638035","9918110051302171585080402603319702774565515993150576347155970296011118125764"]"#,
        r#""a": ["0","0"]"#,
        1,
    );
    let r = verify_from_json(VK.as_bytes(), proof.as_bytes(), br#"["1"]"#);
    assert_eq!(r, Ok(false));
}

#[test]
fn off_curve_g2_key_point_is_invalid_point() {
    // bump one coordinate of beta: off the twist curve
    let bad = VK.replacen(
        "18029695676650738226693292988307914797657423701064905010927197838374790804409",
        "18029695676650738226693292988307914797657423701064905010927197838374790804408",
        1,
    );
    let vk = VKey::from_json_u8_slice(bad.as_bytes()).unwrap();
    let r = prepare_verification_key(vk);
    assert_eq!(r.err(), Some(VerificationError::InvalidPoint(PointTag::Beta)));
}

#[test]
fn command_carries_the_three_paths() {
    let cmd = groth16_verifier::ZkSnarksVerifyCmd {
        vk_path: String::from("vk.json"),
        proof_path: String::from("proof.json"),
        inputs_path: String::from("inputs.json"),
    };
    assert_eq!(cmd.vk_path, "vk.json");
    assert_eq!(cmd.proof_path, "proof.json");
    assert_eq!(cmd.inputs_path, "inputs.json");
}
