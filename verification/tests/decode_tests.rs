use shc_decoder::error::DecodeError;
use shc_decoder::model::Resource;
use shc_decoder::model::decode_body_text;
use shc_decoder::numeric::decode_digit_pairs;
use shc_decoder::numeric::encode_digit_pairs;
use shc_decoder::pipeline::decode_payload;
use shc_decoder::report::report_lines;

/// A raw deflate stream holding `data` in one stored (uncompressed) block.
fn deflate_stored(data: &[u8]) -> Vec<u8> {
    assert!(data.len() < 0x10000);
    let len = data.len() as u16;
    let nlen = !len;
    let mut v = vec![
        0x01u8,
        (len & 0xff) as u8,
        (len >> 8) as u8,
        (nlen & 0xff) as u8,
        (nlen >> 8) as u8,
    ];
    v.extend_from_slice(data);
    v
}

/// A JWT whose payload segment encodes `json`, with fixed header/signature.
fn jwt_for(json: &str) -> String {
    let payload = base64::encode_config(&deflate_stored(json.as_bytes()), base64::URL_SAFE_NO_PAD);
    format!("h.{}.s", payload)
}

/// A full SHC token for `json`.
fn shc_token(json: &str) -> String {
    let digits = encode_digit_pairs(&jwt_for(json)).unwrap();
    format!("shc:/{}", digits)
}

fn patient_bundle_json(resource: &str) -> String {
    format!(
        "{{\"iss\":\"https://example.org\",\"nbf\":1600000000,\"vc\":{{\"type\":[\"VerifiableCredential\"],\"credentialSubject\":{{\"fhirVersion\":\"4.0.1\",\"fhirBundle\":{{\"resourceType\":\"Bundle\",\"type\":\"collection\",\"entry\":[{{\"fullUrl\":\"resource:0\",\"resource\":{}}}]}}}}}}}}",
        resource
    )
}

const PATIENT_JANE: &str = "{\"resourceType\":\"Patient\",\"name\":[{\"family\":\"Doe\",\"given\":[\"Jane\"]}],\"birthDate\":\"1970-01-01\"}";

const IMMUNIZATION: &str = "{\"resourceType\":\"Immunization\",\"lotNumber\":\" ABC123 \",\"status\":\"completed\",\"vaccineCode\":{\"coding\":[{\"system\":\"http://hl7.org/cvx\",\"code\":\"208\"}]},\"patient\":{\"reference\":\"resource:0\"},\"occurrenceDateTime\":\"2021-03-01\",\"performer\":[{\"actor\":{\"display\":\"Pharmacy X\"}}]}";

#[test]
fn numeric_round_trip() {
    let text = "eyJhbGciOiJFUzI1NiJ9.x-_9A.zZ";
    let encoded = encode_digit_pairs(text).unwrap();
    assert_eq!(encoded.len(), 2 * text.len());
    assert!(encoded.chars().all(|c| c.is_ascii_digit()));
    let decoded = decode_digit_pairs(&encoded).unwrap();
    assert_eq!(decoded, text);
}

#[test]
fn numeric_round_trip_range_edges() {
    let text = "-\u{90}";
    let encoded = encode_digit_pairs(text).unwrap();
    assert_eq!(encoded, "0099");
    assert_eq!(decode_digit_pairs("0099").unwrap(), text);
}

#[test]
fn even_digit_strings_never_invalid_digit_pair() {
    for digits in ["", "00", "0099455045", "123456"] {
        let r = decode_digit_pairs(digits);
        assert!(r.is_ok());
    }
}

#[test]
fn non_digit_gives_invalid_digit_pair() {
    assert_eq!(decode_digit_pairs("1a"), Err(DecodeError::InvalidDigitPair));
    assert_eq!(decode_digit_pairs("a734"), Err(DecodeError::InvalidDigitPair));
}

#[test]
fn odd_length_gives_malformed_token() {
    assert_eq!(decode_digit_pairs("123"), Err(DecodeError::MalformedToken));
    assert_eq!(decode_digit_pairs("1"), Err(DecodeError::MalformedToken));
}

#[test]
fn json_decode_idempotent() {
    let json = patient_bundle_json(PATIENT_JANE);
    let a = decode_body_text(&json).unwrap();
    let b = decode_body_text(&json).unwrap();
    assert_eq!(a, b);
}

#[test]
fn scenario_patient_line() {
    let token = shc_token(&patient_bundle_json(PATIENT_JANE));
    let body = decode_payload(token.as_bytes()).unwrap();
    assert_eq!(body.iss, "https://example.org");
    assert_eq!(body.nbf, 1600000000);
    let lines = report_lines(&body).unwrap();
    assert_eq!(lines, vec!["Patient: Jane Doe".to_string()]);
}

#[test]
fn scenario_immunization_line() {
    let token = shc_token(&patient_bundle_json(IMMUNIZATION));
    let body = decode_payload(token.as_bytes()).unwrap();
    let lines = report_lines(&body).unwrap();
    assert_eq!(
        lines,
        vec!["Immunization: ABC123, completed by Pharmacy X on 2021-03-01".to_string()]
    );
}

#[test]
fn scenario_unknown_resource_type() {
    let observation = "{\"resourceType\":\"Observation\",\"status\":\"final\"}";
    let token = shc_token(&patient_bundle_json(observation));
    let r = decode_payload(token.as_bytes());
    assert_eq!(r, Err(DecodeError::UnknownResourceType));
}

#[test]
fn scenario_malformed_digit_payload() {
    assert_eq!(
        decode_payload("shc:/123".as_bytes()),
        Err(DecodeError::MalformedToken)
    );
    assert_eq!(
        decode_payload("shc:/12a4".as_bytes()),
        Err(DecodeError::InvalidDigitPair)
    );
}

#[test]
fn missing_separator_gives_malformed_token() {
    assert_eq!(
        decode_payload("shc123456".as_bytes()),
        Err(DecodeError::MalformedToken)
    );
}

#[test]
fn missing_dot_gives_malformed_jwt() {
    let digits = encode_digit_pairs("nodotshere").unwrap();
    let token = format!("shc:/{}", digits);
    assert_eq!(
        decode_payload(token.as_bytes()),
        Err(DecodeError::MalformedJWT)
    );
}

#[test]
fn invalid_base64_payload() {
    let digits = encode_digit_pairs("h.~~~~.s").unwrap();
    let token = format!("shc:/{}", digits);
    assert_eq!(
        decode_payload(token.as_bytes()),
        Err(DecodeError::Base64DecodeError)
    );
}

#[test]
fn invalid_deflate_stream() {
    let payload = base64::encode_config(&[0xffu8, 0xff], base64::URL_SAFE_NO_PAD);
    let jwt = format!("h.{}.s", payload);
    let digits = encode_digit_pairs(&jwt).unwrap();
    let token = format!("shc:/{}", digits);
    assert_eq!(
        decode_payload(token.as_bytes()),
        Err(DecodeError::InflateError)
    );
}

#[test]
fn invalid_utf8_qr_payload() {
    assert_eq!(
        decode_payload(&[0xff, 0x2f, 0x31, 0x32]),
        Err(DecodeError::Utf8DecodeError)
    );
}

#[test]
fn inflated_bytes_not_utf8() {
    let payload = base64::encode_config(&deflate_stored(&[0xff, 0xfe]), base64::URL_SAFE_NO_PAD);
    let jwt = format!("h.{}.s", payload);
    let digits = encode_digit_pairs(&jwt).unwrap();
    let token = format!("shc:/{}", digits);
    assert_eq!(
        decode_payload(token.as_bytes()),
        Err(DecodeError::Utf8DecodeError)
    );
}

#[test]
fn missing_required_field_is_schema_violation() {
    let json = "{\"iss\":\"x\",\"vc\":{}}";
    assert_eq!(decode_body_text(json), Err(DecodeError::SchemaViolation));
}

#[test]
fn fractional_nbf_is_schema_violation() {
    let json = patient_bundle_json(PATIENT_JANE).replace("1600000000", "1600000000.5");
    assert_eq!(decode_body_text(&json), Err(DecodeError::SchemaViolation));
}

#[test]
fn malformed_json_is_schema_violation() {
    assert_eq!(decode_body_text("{"), Err(DecodeError::SchemaViolation));
    assert_eq!(decode_body_text(""), Err(DecodeError::SchemaViolation));
}

#[test]
fn empty_name_gives_missing_name() {
    let patient = "{\"resourceType\":\"Patient\",\"name\":[],\"birthDate\":\"1970-01-01\"}";
    let body = decode_body_text(&patient_bundle_json(patient)).unwrap();
    assert_eq!(report_lines(&body), Err(DecodeError::MissingName));
}

#[test]
fn empty_performer_gives_missing_performer() {
    let imm = "{\"resourceType\":\"Immunization\",\"lotNumber\":\"L1\",\"status\":\"completed\",\"vaccineCode\":{\"coding\":[]},\"patient\":{\"reference\":\"resource:0\"},\"occurrenceDateTime\":\"2021-03-01\",\"performer\":[]}";
    let body = decode_body_text(&patient_bundle_json(imm)).unwrap();
    assert_eq!(report_lines(&body), Err(DecodeError::MissingPerformer));
}

#[test]
fn string_escapes_are_decoded() {
    let json = patient_bundle_json(PATIENT_JANE)
        .replace("https://example.org", "a\\\"b\\u0041\\n");
    let body = decode_body_text(&json).unwrap();
    assert_eq!(body.iss, "a\"bA\n");
}

#[test]
fn decoded_fields_match_input() {
    let body = decode_body_text(&patient_bundle_json(IMMUNIZATION)).unwrap();
    assert_eq!(body.vc.types, vec!["VerifiableCredential".to_string()]);
    assert_eq!(body.vc.credential_subject.fhir_version, "4.0.1");
    let bundle = &body.vc.credential_subject.fhir_bundle;
    assert_eq!(bundle.resource_type, "Bundle");
    assert_eq!(bundle.bundle_type, "collection");
    assert_eq!(bundle.entry.len(), 1);
    assert_eq!(bundle.entry[0].full_url, "resource:0");
    match &bundle.entry[0].resource {
        Resource::Immunization { lot_number, status, vaccine_code, patient, .. } => {
            assert_eq!(lot_number, " ABC123 ");
            assert_eq!(status, "completed");
            assert_eq!(vaccine_code.coding.len(), 1);
            assert_eq!(vaccine_code.coding[0].system, "http://hl7.org/cvx");
            assert_eq!(vaccine_code.coding[0].code, "208");
            assert_eq!(patient.reference, "resource:0");
        }
        _ => panic!("expected an immunization"),
    }
}

#[test]
fn unknown_fields_are_skipped() {
    let patient = "{\"resourceType\":\"Patient\",\"extra\":{\"a\":[1,true,null,-2.5e3],\"b\":\"x\"},\"name\":[{\"family\":\"Doe\",\"given\":[\"Jane\"]}],\"birthDate\":\"1970-01-01\",\"more\":false}";
    let body = decode_body_text(&patient_bundle_json(patient)).unwrap();
    let lines = report_lines(&body).unwrap();
    assert_eq!(lines, vec!["Patient: Jane Doe".to_string()]);
}

#[test]
fn whitespace_between_tokens_is_ignored() {
    let json = "{ \"iss\" : \"x\" ,\n\t\"nbf\" : 7 , \"vc\" : {\"type\":[],\"credentialSubject\":{\"fhirVersion\":\"4.0.1\",\"fhirBundle\":{\"resourceType\":\"Bundle\",\"type\":\"collection\",\"entry\":[]}}} }";
    let body = decode_body_text(json).unwrap();
    assert_eq!(body.iss, "x");
    assert_eq!(body.nbf, 7);
    assert_eq!(report_lines(&body).unwrap(), Vec::<String>::new());
}

#[test]
fn nbf_range_boundaries() {
    let base = "{\"iss\":\"x\",\"nbf\":NBF,\"vc\":{\"type\":[],\"credentialSubject\":{\"fhirVersion\":\"4\",\"fhirBundle\":{\"resourceType\":\"Bundle\",\"type\":\"collection\",\"entry\":[]}}}}";
    let ok_min = decode_body_text(&base.replace("NBF", "-2147483648")).unwrap();
    assert_eq!(ok_min.nbf, -2147483648);
    let ok_max = decode_body_text(&base.replace("NBF", "2147483647")).unwrap();
    assert_eq!(ok_max.nbf, 2147483647);
    assert_eq!(
        decode_body_text(&base.replace("NBF", "2147483648")),
        Err(DecodeError::SchemaViolation)
    );
    assert_eq!(
        decode_body_text(&base.replace("NBF", "-2147483649")),
        Err(DecodeError::SchemaViolation)
    );
    assert_eq!(
        decode_body_text(&base.replace("NBF", "99999999999999999999999")),
        Err(DecodeError::SchemaViolation)
    );
}

#[test]
fn trailing_content_is_rejected() {
    let json = patient_bundle_json(PATIENT_JANE) + "x";
    assert_eq!(decode_body_text(&json), Err(DecodeError::SchemaViolation));
}

#[test]
fn given_names_join_in_order() {
    let patient = "{\"resourceType\":\"Patient\",\"name\":[{\"family\":\"Doe\",\"given\":[\"Jane\",\"Q\"]}],\"birthDate\":\"1970-01-01\"}";
    let body = decode_body_text(&patient_bundle_json(patient)).unwrap();
    let lines = report_lines(&body).unwrap();
    assert_eq!(lines, vec!["Patient: Jane Q Doe".to_string()]);
}
