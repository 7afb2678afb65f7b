use vulntrix::ecosystem::Ecosystem;
use vulntrix::encode::{build_query_body, render_json, render_ndjson, render_table};
use vulntrix::model::{OsvAdvisory, OsvResponse, OsvSeverity, VulnLite};

fn lite(id: &str, summary: Option<&str>, severity: Option<&str>) -> VulnLite {
    VulnLite {
        id: id.to_string(),
        summary: summary.map(|s| s.to_string()),
        severity: severity.map(|s| s.to_string()),
    }
}

#[test]
fn query_body_with_version() {
    let body = build_query_body("requests", Ecosystem::Pypi, Some("2.19.1"));
    assert_eq!(
        body,
        "{\"package\":{\"name\":\"requests\",\"ecosystem\":\"PyPI\"},\"version\":\"2.19.1\"}"
    );
}

#[test]
fn query_body_omits_absent_version() {
    let body = build_query_body("lodash", Ecosystem::Npm, None);
    assert_eq!(body, "{\"package\":{\"name\":\"lodash\",\"ecosystem\":\"npm\"}}");
    assert!(!body.contains("version"));
}

#[test]
fn query_body_escapes_package_name() {
    let body = build_query_body("a\"b\\c\nd", Ecosystem::Go, None);
    assert_eq!(body, "{\"package\":{\"name\":\"a\\\"b\\\\c\\nd\",\"ecosystem\":\"Go\"}}");
}

#[test]
fn query_body_escapes_control_characters() {
    let body = build_query_body("x\u{1f}y", Ecosystem::Go, None);
    assert_eq!(body, "{\"package\":{\"name\":\"x\\u001fy\",\"ecosystem\":\"Go\"}}");
}

#[test]
fn ndjson_single_line_without_version() {
    let vulns = vec![lite("GHSA-1", Some("bad"), Some("9.8"))];
    let out = render_ndjson("lodash", Ecosystem::Npm, None, &vulns);
    assert_eq!(
        out,
        "{\"package\":\"lodash\",\"ecosystem\":\"npm\",\"vulns\":[{\"id\":\"GHSA-1\",\"summary\":\"bad\",\"severity\":\"9.8\"}]}"
    );
    assert!(!out.contains("version"));
}

#[test]
fn ndjson_with_version_and_omitted_fields() {
    let vulns = vec![lite("GHSA-1", None, None), lite("GHSA-2", Some("x"), None)];
    let out = render_ndjson("requests", Ecosystem::Pypi, Some("2.19.1"), &vulns);
    assert_eq!(
        out,
        "{\"package\":\"requests\",\"ecosystem\":\"PyPI\",\"version\":\"2.19.1\",\"vulns\":[{\"id\":\"GHSA-1\"},{\"id\":\"GHSA-2\",\"summary\":\"x\"}]}"
    );
}

#[test]
fn json_pretty_fixed_shape() {
    let vulns = vec![lite("RUSTSEC-2023-0001", Some("Timing attack"), Some("9.8"))];
    let out = render_json("openssl", Ecosystem::CratesIo, None, &vulns);
    let expected = "{\n  \"package\": \"openssl\",\n  \"ecosystem\": \"crates.io\",\n  \"vulns\": [\n    {\n      \"id\": \"RUSTSEC-2023-0001\",\n      \"summary\": \"Timing attack\",\n      \"severity\": \"9.8\"\n    }\n  ]\n}";
    assert_eq!(out, expected);
}

#[test]
fn json_pretty_empty_vulns() {
    let vulns: Vec<VulnLite> = vec![];
    let out = render_json("p", Ecosystem::Npm, None, &vulns);
    assert_eq!(out, "{\n  \"package\": \"p\",\n  \"ecosystem\": \"npm\",\n  \"vulns\": []\n}");
}

#[test]
fn json_render_is_stable_across_runs() {
    let vulns = vec![lite("A", Some("s"), None), lite("B", None, Some("2"))];
    let a = render_json("p", Ecosystem::Maven, Some("1.0"), &vulns);
    let b = render_json("p", Ecosystem::Maven, Some("1.0"), &vulns);
    assert_eq!(a, b);
    let c = render_ndjson("p", Ecosystem::Maven, Some("1.0"), &vulns);
    let d = render_ndjson("p", Ecosystem::Maven, Some("1.0"), &vulns);
    assert_eq!(c, d);
}

#[test]
fn json_output_parses_as_json_with_expected_fields() {
    let vulns = vec![lite("GHSA-9", Some("oops"), Some("CVSS_V3"))];
    let out = render_json("pkg", Ecosystem::Rubygems, Some("3.2"), &vulns);
    let v: serde_json::Value = serde_json::from_str(&out).expect("valid JSON");
    assert_eq!(v["package"].as_str(), Some("pkg"));
    assert_eq!(v["ecosystem"].as_str(), Some("RubyGems"));
    assert_eq!(v["version"].as_str(), Some("3.2"));
    assert_eq!(v["vulns"][0]["id"].as_str(), Some("GHSA-9"));
    assert_eq!(v["vulns"][0]["summary"].as_str(), Some("oops"));
    assert_eq!(v["vulns"][0]["severity"].as_str(), Some("CVSS_V3"));
}

#[test]
fn table_lists_each_advisory() {
    let resp = OsvResponse {
        vulns: vec![
            OsvAdvisory {
                id: "RUSTSEC-2023-0001".to_string(),
                summary: Some("Timing attack".to_string()),
                details: None,
                severity: vec![OsvSeverity {
                    kind: Some("CVSS_V3".to_string()),
                    score: Some("9.8".to_string()),
                }],
            },
            OsvAdvisory { id: "GHSA-2".to_string(), summary: None, details: None, severity: vec![] },
        ],
    };
    let lines = render_table("openssl", Ecosystem::CratesIo, None, &resp);
    assert_eq!(lines.len(), 3 + resp.vulns.len());
    assert_eq!(lines[0], "vulntrix \u{2014} OSV results");
    assert_eq!(lines[1], "Package: openssl  Ecosystem: crates.io");
    assert_eq!(lines[2], "Vulnerabilities:");
    assert_eq!(lines[3], "\u{2022} RUSTSEC-2023-0001 [CVSS_V3] Timing attack");
    assert_eq!(lines[4], "\u{2022} GHSA-2 [-] -");
}

#[test]
fn table_empty_response() {
    let resp = OsvResponse { vulns: vec![] };
    let lines = render_table("leftpad", Ecosystem::Npm, None, &resp);
    assert_eq!(lines.len(), 3);
    assert_eq!(lines[0], "vulntrix \u{2014} OSV results");
    assert_eq!(lines[1], "Package: leftpad  Ecosystem: npm");
    assert_eq!(lines[2], "No vulnerabilities found.");
}

#[test]
fn table_shows_version_when_given() {
    let resp = OsvResponse { vulns: vec![] };
    let lines = render_table("requests", Ecosystem::Pypi, Some("2.19.1"), &resp);
    assert_eq!(lines[1], "Package: requests  Ecosystem: PyPI  Version: 2.19.1");
}
