use vulntrix::model::{OsvAdvisory, OsvSeverity, VulnLite};

fn adv(id: &str, summary: Option<&str>, severity: Vec<OsvSeverity>) -> OsvAdvisory {
    OsvAdvisory {
        id: id.to_string(),
        summary: summary.map(|s| s.to_string()),
        details: None,
        severity,
    }
}

fn sev(kind: Option<&str>, score: Option<&str>) -> OsvSeverity {
    OsvSeverity { kind: kind.map(|s| s.to_string()), score: score.map(|s| s.to_string()) }
}

#[test]
fn best_severity_prefers_first_kind() {
    let a = adv("X", None, vec![sev(Some("CVSS_V3"), Some("9.8")), sev(Some("CVSS_V2"), None)]);
    assert_eq!(a.best_severity(), Some("CVSS_V3"));
}

#[test]
fn best_severity_falls_back_to_score() {
    let a = adv("X", None, vec![sev(None, Some("9.8"))]);
    assert_eq!(a.best_severity(), Some("9.8"));
    let b = adv("X", None, vec![sev(Some(""), Some("9.8"))]);
    assert_eq!(b.best_severity(), Some("9.8"));
}

#[test]
fn best_severity_absent_when_first_entry_empty() {
    let a = adv("X", None, vec![]);
    assert_eq!(a.best_severity(), None);
    let b = adv("X", None, vec![sev(None, None)]);
    assert_eq!(b.best_severity(), None);
    let c = adv("X", None, vec![sev(Some(""), Some(""))]);
    assert_eq!(c.best_severity(), None);
}

#[test]
fn best_severity_ignores_later_entries() {
    let a = adv("X", None, vec![sev(None, None), sev(Some("CVSS_V3"), Some("9.8"))]);
    assert_eq!(a.best_severity(), None);
}

#[test]
fn lite_copies_id_and_summary() {
    let a = adv("RUSTSEC-2023-0001", Some("Timing attack"), vec![]);
    let l = VulnLite::from_advisory(&a);
    assert_eq!(l.id, "RUSTSEC-2023-0001");
    assert_eq!(l.summary.as_deref(), Some("Timing attack"));
    assert_eq!(l.severity, None);
}

#[test]
fn lite_prefers_concrete_score_over_kind() {
    let a = adv("X", None, vec![sev(Some("CVSS_V3"), Some("9.8"))]);
    let l = VulnLite::from_advisory(&a);
    assert_eq!(l.severity.as_deref(), Some("9.8"));
}

#[test]
fn lite_keeps_kind_when_no_score() {
    let a = adv("X", None, vec![sev(Some("CVSS_V3"), None)]);
    let l = VulnLite::from_advisory(&a);
    assert_eq!(l.severity.as_deref(), Some("CVSS_V3"));
}

#[test]
fn lite_keeps_kind_when_score_is_empty() {
    let a = adv("X", None, vec![sev(Some("CVSS_V3"), Some(""))]);
    assert_eq!(a.best_severity(), Some("CVSS_V3"));
    let l = VulnLite::from_advisory(&a);
    assert_eq!(l.severity.as_deref(), Some("CVSS_V3"));
}

#[test]
fn lite_severity_absent_for_empty_list() {
    let a = adv("X", None, vec![]);
    let l = VulnLite::from_advisory(&a);
    assert_eq!(l.severity, None);
}
