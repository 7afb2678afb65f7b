//! The advisory model: the subset of an OSV response that the tool surfaces,
//! the compact projection used for output, and the best-severity rule.

use vstd::prelude::*;

verus! {

/// A severity entry: a scoring-system kind (e.g. `CVSS_V3`) and an opaque
/// score string. Both are optional and neither is validated.
#[derive(Clone, Debug)]
pub struct OsvSeverity {
    pub kind: Option<String>,
    pub score: Option<String>,
}

/// One advisory: a stable identifier, an optional summary, optional details,
/// and the ordered severity entries the service returned.
#[derive(Clone, Debug)]
pub struct OsvAdvisory {
    pub id: String,
    pub summary: Option<String>,
    pub details: Option<String>,
    pub severity: Vec<OsvSeverity>,
}

/// The decoded response: the advisories in service order. An empty sequence
/// means no known vulnerabilities.
#[derive(Clone, Debug)]
pub struct OsvResponse {
    pub vulns: Vec<OsvAdvisory>,
}

/// The compact output projection of one advisory.
#[derive(Clone, Debug)]
pub struct VulnLite {
    pub id: String,
    pub summary: Option<String>,
    pub severity: Option<String>,
}

pub open spec fn opt_view(o: Option<String>) -> Option<Seq<char>> {
    match o {
        Some(s) => Some(s@),
        None => None,
    }
}

pub open spec fn opt_str_view(o: Option<&str>) -> Option<Seq<char>> {
    match o {
        Some(s) => Some(s@),
        None => None,
    }
}

pub struct SeverityView {
    pub kind: Option<Seq<char>>,
    pub score: Option<Seq<char>>,
}

pub struct AdvisoryView {
    pub id: Seq<char>,
    pub summary: Option<Seq<char>>,
    pub details: Option<Seq<char>>,
    pub severity: Seq<SeverityView>,
}

pub struct LiteView {
    pub id: Seq<char>,
    pub summary: Option<Seq<char>>,
    pub severity: Option<Seq<char>>,
}

impl View for OsvSeverity {
    type V = SeverityView;

    open spec fn view(&self) -> SeverityView {
        SeverityView { kind: opt_view(self.kind), score: opt_view(self.score) }
    }
}

impl View for OsvAdvisory {
    type V = AdvisoryView;

    open spec fn view(&self) -> AdvisoryView {
        AdvisoryView {
            id: self.id@,
            summary: opt_view(self.summary),
            details: opt_view(self.details),
            severity: self.severity@.map_values(|s: OsvSeverity| s@),
        }
    }
}

impl View for OsvResponse {
    type V = Seq<AdvisoryView>;

    open spec fn view(&self) -> Seq<AdvisoryView> {
        self.vulns@.map_values(|a: OsvAdvisory| a@)
    }
}

impl View for VulnLite {
    type V = LiteView;

    open spec fn view(&self) -> LiteView {
        LiteView { id: self.id@, summary: opt_view(self.summary), severity: opt_view(self.severity) }
    }
}

/// The best-severity rule: the first entry's kind when non-empty, else the
/// first entry's score when non-empty, else absent. Later entries are never
/// consulted.
pub open spec fn spec_best_severity(a: AdvisoryView) -> Option<Seq<char>> {
    if a.severity.len() == 0 {
        None
    } else {
        let s0 = a.severity[0];
        match s0.kind {
            Some(k) => {
                if k.len() > 0 {
                    Some(k)
                } else {
                    spec_score_fallback(s0)
                }
            },
            None => spec_score_fallback(s0),
        }
    }
}

pub open spec fn spec_score_fallback(s0: SeverityView) -> Option<Seq<char>> {
    match s0.score {
        Some(sc) => {
            if sc.len() > 0 {
                Some(sc)
            } else {
                None
            }
        },
        None => None,
    }
}

/// Whether the first severity entry has a non-empty kind.
pub open spec fn spec_first_kind_nonempty(a: AdvisoryView) -> bool {
    a.severity.len() > 0 && match a.severity[0].kind {
        Some(k) => k.len() > 0,
        None => false,
    }
}

/// The severity string of the lite projection: the best severity, except
/// that when the best severity chose the kind and a non-empty score is also
/// present, the concrete score is preferred. An empty score is no concrete
/// score, so the kind stands.
pub open spec fn spec_lite_severity(a: AdvisoryView) -> Option<Seq<char>> {
    if spec_first_kind_nonempty(a) {
        match a.severity[0].score {
            Some(sc) => {
                if sc.len() > 0 {
                    Some(sc)
                } else {
                    spec_best_severity(a)
                }
            },
            None => spec_best_severity(a),
        }
    } else {
        spec_best_severity(a)
    }
}

/// The lite projection of an advisory.
pub open spec fn spec_lite(a: AdvisoryView) -> LiteView {
    LiteView { id: a.id, summary: a.summary, severity: spec_lite_severity(a) }
}

fn clone_opt_string(o: &Option<String>) -> (r: Option<String>)
    ensures
        opt_view(r) == opt_view(*o),
{
    match o {
        Some(s) => Some(s.clone()),
        None => None,
    }
}

impl OsvAdvisory {
    /// The best-severity string per the first-entry rule.
    pub fn best_severity(&self) -> (r: Option<&str>)
        ensures
            opt_str_view(r) == spec_best_severity(self@),
    {
        if self.severity.len() == 0 {
            return None;
        }
        let s0 = &self.severity[0];
        if let Some(k) = &s0.kind {
            if !k.as_str().is_empty() {
                return Some(k.as_str());
            }
        }
        if let Some(sc) = &s0.score {
            if !sc.as_str().is_empty() {
                return Some(sc.as_str());
            }
        }
        None
    }
}

impl VulnLite {
    /// The compact output projection of an advisory.
    pub fn from_advisory(v: &OsvAdvisory) -> (r: VulnLite)
        ensures
            r@ == spec_lite(v@),
    {
        let severity: Option<String> = if v.severity.len() == 0 {
            None
        } else {
            let s0 = &v.severity[0];
            let kind_nonempty = match &s0.kind {
                Some(k) => !k.as_str().is_empty(),
                None => false,
            };
            if kind_nonempty {
                let score_nonempty = match &s0.score {
                    Some(sc) => !sc.as_str().is_empty(),
                    None => false,
                };
                if score_nonempty {
                    match &s0.score {
                        Some(sc) => Some(sc.clone()),
                        None => None,
                    }
                } else {
                    match &s0.kind {
                        Some(k) => Some(k.clone()),
                        None => None,
                    }
                }
            } else {
                match &s0.score {
                    Some(sc) => {
                        if sc.as_str().is_empty() {
                            None
                        } else {
                            Some(sc.clone())
                        }
                    },
                    None => None,
                }
            }
        };
        VulnLite { id: v.id.clone(), summary: clone_opt_string(&v.summary), severity }
    }
}

impl Default for OsvResponse {
    /// The empty response: no known vulnerabilities.
    fn default() -> (r: Self)
        ensures
            r@ == Seq::<AdvisoryView>::empty(),
    {
        let r = OsvResponse { vulns: Vec::new() };
        proof {
            assert(r@ =~= Seq::<AdvisoryView>::empty());
        }
        r
    }
}

} // verus!
