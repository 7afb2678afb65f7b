use vulntrix::decode::{decode_response, handle_response, OsvError};
use vulntrix::model::VulnLite;
use vulntrix::ecosystem::Ecosystem;
use vulntrix::encode::render_ndjson;

#[test]
fn decodes_canonical_response() {
    let body = "{\"vulns\":[{\"id\":\"RUSTSEC-2023-0001\",\"summary\":\"Timing attack\",\"severity\":[{\"type\":\"CVSS_V3\",\"score\":\"9.8\"}]}]}";
    let resp = decode_response(body).expect("decodes");
    assert_eq!(resp.vulns.len(), 1);
    let a = &resp.vulns[0];
    assert_eq!(a.id, "RUSTSEC-2023-0001");
    assert_eq!(a.summary.as_deref(), Some("Timing attack"));
    assert_eq!(a.severity.len(), 1);
    assert_eq!(a.severity[0].kind.as_deref(), Some("CVSS_V3"));
    assert_eq!(a.severity[0].score.as_deref(), Some("9.8"));
}

#[test]
fn empty_vulns_array_is_empty_response() {
    let resp = decode_response("{\"vulns\": []}").expect("decodes");
    assert_eq!(resp.vulns.len(), 0);
}

#[test]
fn missing_vulns_is_empty_response() {
    let resp = decode_response("{}").expect("decodes");
    assert_eq!(resp.vulns.len(), 0);
    let resp = decode_response("{\"next_page_token\": \"abc\"}").expect("decodes");
    assert_eq!(resp.vulns.len(), 0);
}

#[test]
fn null_vulns_is_empty_response() {
    let resp = decode_response("{\"vulns\": null}").expect("decodes");
    assert_eq!(resp.vulns.len(), 0);
}

#[test]
fn unknown_fields_are_ignored() {
    let body = "{ \"extra\": {\"deep\": [1, 2, {\"x\": \"]\"}]}, \"vulns\": [ {\"id\": \"A\", \"published\": \"2024-01-01T00:00:00Z\", \"affected\": [{\"ranges\": []}], \"severity\": [] } ], \"more\": false }";
    let resp = decode_response(body).expect("decodes");
    assert_eq!(resp.vulns.len(), 1);
    assert_eq!(resp.vulns[0].id, "A");
    assert_eq!(resp.vulns[0].summary, None);
    assert_eq!(resp.vulns[0].severity.len(), 0);
}

#[test]
fn advisory_without_id_is_rejected() {
    assert!(decode_response("{\"vulns\":[{\"summary\":\"x\"}]}").is_none());
}

#[test]
fn null_summary_is_absent() {
    let resp = decode_response("{\"vulns\":[{\"id\":\"A\",\"summary\":null}]}").expect("decodes");
    assert_eq!(resp.vulns[0].summary, None);
}

#[test]
fn details_are_decoded() {
    let resp =
        decode_response("{\"vulns\":[{\"id\":\"A\",\"details\":\"long text\"}]}").expect("decodes");
    assert_eq!(resp.vulns[0].details.as_deref(), Some("long text"));
}

#[test]
fn string_escapes_are_decoded() {
    let body = "{\"vulns\":[{\"id\":\"A\",\"summary\":\"a\\\"b\\\\c\\nd \\u0041 \\u001f\"}]}";
    let resp = decode_response(body).expect("decodes");
    assert_eq!(resp.vulns[0].summary.as_deref(), Some("a\"b\\c\nd A \u{1f}"));
}

#[test]
fn surrogate_pairs_are_decoded() {
    let resp = decode_response("{\"vulns\":[{\"id\":\"\\ud83d\\ude00\"}]}").expect("decodes");
    assert_eq!(resp.vulns[0].id, "\u{1f600}");
    let resp =
        decode_response("{\"vulns\":[{\"id\":\"a\\uD801\\uDC37b\"}]}").expect("decodes");
    assert_eq!(resp.vulns[0].id, "a\u{10437}b");
}

#[test]
fn lone_surrogate_escapes_are_rejected() {
    assert!(decode_response("{\"vulns\":[{\"id\":\"\\ud83d\"}]}").is_none());
    assert!(decode_response("{\"vulns\":[{\"id\":\"\\ud83d!\"}]}").is_none());
    assert!(decode_response("{\"vulns\":[{\"id\":\"\\ud83d\\u0041\"}]}").is_none());
    assert!(decode_response("{\"vulns\":[{\"id\":\"\\ude00\"}]}").is_none());
}

#[test]
fn non_object_bodies_are_rejected() {
    assert!(decode_response("").is_none());
    assert!(decode_response("[]").is_none());
    assert!(decode_response("null").is_none());
    assert!(decode_response("{\"vulns\":[]} trailing").is_none());
    assert!(decode_response("{\"vulns\":[}").is_none());
}

#[test]
fn duplicate_members_take_the_later_value() {
    let body = "{\"vulns\":[{\"id\":\"A\",\"id\":\"B\"}]}";
    let resp = decode_response(body).expect("decodes");
    assert_eq!(resp.vulns[0].id, "B");
}

#[test]
fn whitespace_is_tolerated() {
    let body = " \t\r\n { \"vulns\" : [ { \"id\" : \"A\" } ] } \n";
    let resp = decode_response(body).expect("decodes");
    assert_eq!(resp.vulns[0].id, "A");
}

#[test]
fn service_error_keeps_status_and_body() {
    let r = handle_response(500, "{\"error\":\"boom\"}");
    match r {
        Err(OsvError::Service { status, body }) => {
            assert_eq!(status, 500);
            assert_eq!(body, "{\"error\":\"boom\"}");
        },
        _ => panic!("expected a service error"),
    }
    let msg = handle_response(500, "{\"error\":\"boom\"}").unwrap_err().message();
    assert_eq!(msg, "OSV error 500: {\"error\":\"boom\"}");
}

#[test]
fn success_status_decodes_body() {
    let r = handle_response(200, "{\"vulns\":[]}").expect("ok");
    assert_eq!(r.vulns.len(), 0);
    let r = handle_response(299, "{}").expect("ok");
    assert_eq!(r.vulns.len(), 0);
}

#[test]
fn bad_body_on_success_status_is_decode_error() {
    let r = handle_response(200, "not json");
    assert_eq!(r.unwrap_err(), OsvError::Decode);
    let msg = OsvError::Decode.message();
    assert_eq!(msg, "parsing OSV JSON failed");
}

#[test]
fn decode_then_reencode_preserves_ids_in_order() {
    let body = "{\"vulns\":[{\"id\":\"GHSA-1\",\"severity\":[{\"type\":\"CVSS_V3\"}]},{\"id\":\"GHSA-2\"},{\"id\":\"GHSA-3\",\"summary\":\"s\"}]}";
    let resp = decode_response(body).expect("decodes");
    let lites: Vec<VulnLite> = resp.vulns.iter().map(VulnLite::from_advisory).collect();
    let out = render_ndjson("p", Ecosystem::Npm, None, &lites);
    let v: serde_json::Value = serde_json::from_str(&out).expect("valid JSON");
    let ids: Vec<&str> =
        v["vulns"].as_array().unwrap().iter().map(|x| x["id"].as_str().unwrap()).collect();
    assert_eq!(ids, vec!["GHSA-1", "GHSA-2", "GHSA-3"]);
}
