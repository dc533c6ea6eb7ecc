//! A demonstration plugin: it marks every target as affected and decides
//! success from one HTTP GET of the target, and its exploitation is left
//! unimplemented on purpose.

use vstd::prelude::*;
use vstd::string::*;
use crate::poc_core::{
    Poc, PocConfig, PocConfigView, PocError, PocIssue, PocResult, PocResultView, ProbeOutcome,
    ProbeOutcomeView, ProbeRequest, ProbeRequestView, poc_outcome_view,
};

verus! {

/// How grave a vulnerability is.
#[derive(Clone, Copy, Debug, PartialEq, Eq, Structural)]
pub enum Severity {
    Critical,
    High,
    Medium,
    Low,
    Info,
}

/// Static description of the vulnerability a plugin checks for.
#[derive(Debug)]
pub struct VulnInfo {
    pub cve_id: Option<String>,
    pub cwe_id: Option<String>,
    pub name: String,
    pub description: String,
    pub severity: Severity,
    pub affected_versions: Vec<String>,
    pub references: Vec<String>,
}

/// Ghost image of a `VulnInfo`.
#[verifier::ext_equal]
pub ghost struct VulnInfoView {
    pub cve_id: Option<Seq<char>>,
    pub cwe_id: Option<Seq<char>>,
    pub name: Seq<char>,
    pub description: Seq<char>,
    pub severity: Severity,
    pub affected_versions: Seq<Seq<char>>,
    pub references: Seq<Seq<char>>,
}

impl View for VulnInfo {
    type V = VulnInfoView;

    open spec fn view(&self) -> VulnInfoView {
        VulnInfoView {
            cve_id: match &self.cve_id {
                Some(c) => Some(c@),
                None => None,
            },
            cwe_id: match &self.cwe_id {
                Some(c) => Some(c@),
                None => None,
            },
            name: self.name@,
            description: self.description@,
            severity: self.severity,
            affected_versions: self.affected_versions.deep_view(),
            references: self.references.deep_view(),
        }
    }
}

/// Copies a list of strings, entry by entry.
pub fn clone_string_list(v: &Vec<String>) -> (r: Vec<String>)
    ensures
        r.deep_view() == v.deep_view(),
{
    let mut r: Vec<String> = Vec::new();
    let mut i: usize = 0;
    while i < v.len()
        invariant
            i <= v@.len(),
            r@.len() == i,
            forall|k: int| 0 <= k < i ==> #[trigger] r@[k]@ == v@[k]@,
        decreases v@.len() - i,
    {
        r.push(v[i].clone());
        i += 1;
    }
    proof {
        assert(r.deep_view() =~= v.deep_view());
    }
    r
}

impl Clone for VulnInfo {
    fn clone(&self) -> (r: Self)
        ensures
            r@ == self@,
    {
        let r = VulnInfo {
            cve_id: match &self.cve_id {
                Some(c) => Some(c.clone()),
                None => None,
            },
            cwe_id: match &self.cwe_id {
                Some(c) => Some(c.clone()),
                None => None,
            },
            name: self.name.clone(),
            description: self.description.clone(),
            severity: self.severity,
            affected_versions: clone_string_list(&self.affected_versions),
            references: clone_string_list(&self.references),
        };
        proof {
            assert(r@ =~= self@);
        }
        r
    }
}

/// The demonstration plugin: the vulnerability description it reports, and
/// the timeout its HTTP probes are sent with.
#[derive(Debug)]
pub struct ExamplePoc {
    pub info: VulnInfo,
    pub timeout: u64,
}

/// Ghost image of an `ExamplePoc`.
#[verifier::ext_equal]
pub ghost struct ExamplePocView {
    pub info: VulnInfoView,
    pub timeout: u64,
}

impl View for ExamplePoc {
    type V = ExamplePocView;

    open spec fn view(&self) -> ExamplePocView {
        ExamplePocView { info: self.info@, timeout: self.timeout }
    }
}

impl Clone for ExamplePoc {
    fn clone(&self) -> (r: Self)
        ensures
            r@ == self@,
    {
        ExamplePoc { info: self.info.clone(), timeout: self.timeout }
    }
}

/// The fixed vulnerability description the demonstration plugin reports.
pub open spec fn example_info() -> VulnInfoView {
    VulnInfoView {
        cve_id: Some("CVE-2023-XXXXX"@),
        cwe_id: Some("CWE-XXX"@),
        name: "Example Vulnerability"@,
        description: "This is an example vulnerability for demonstration purposes."@,
        severity: Severity::High,
        affected_versions: seq!["1.0.0"@, "1.1.0"@],
        references: seq!["https://example.com/advisory"@, "https://example.com/patch"@],
    }
}

impl ExamplePoc {
    /// Builds the plugin with its fixed vulnerability description; `timeout`
    /// is the HTTP client timeout in seconds.
    pub fn new(timeout: u64) -> (r: Self)
        ensures
            r@ == (ExamplePocView { info: example_info(), timeout }),
    {
        let mut affected: Vec<String> = Vec::new();
        affected.push(("1.0.0").to_owned());
        affected.push(("1.1.0").to_owned());
        let mut references: Vec<String> = Vec::new();
        references.push(("https://example.com/advisory").to_owned());
        references.push(("https://example.com/patch").to_owned());
        let r = ExamplePoc {
            info: VulnInfo {
                cve_id: Some(("CVE-2023-XXXXX").to_owned()),
                cwe_id: Some(("CWE-XXX").to_owned()),
                name: ("Example Vulnerability").to_owned(),
                description: (
                "This is an example vulnerability for demonstration purposes."
                ).to_owned(),
                severity: Severity::High,
                affected_versions: affected,
                references,
            },
            timeout,
        };
        proof {
            assert(r.info@.affected_versions =~= example_info().affected_versions);
            assert(r.info@.references =~= example_info().references);
            assert(r@ =~= (ExamplePocView { info: example_info(), timeout }));
        }
        r
    }

    /// The stub version check: every target's version counts as affected.
    pub fn check_version(&self, _target: &str) -> (r: Result<bool, PocError>)
        ensures
            r matches Ok(b) && b,
    {
        Ok(true)
    }
}

/// The details line of a verification result: the rendered response status
/// and the CVE identifier, or `N/A` without one.
pub open spec fn example_details(info: VulnInfoView, status_text: Seq<char>) -> Seq<char> {
    "响应状态: "@ + status_text + ", CVE编号: "@ + (match info.cve_id {
        Some(c) => c,
        None => "N/A"@,
    })
}

impl Poc for ExamplePoc {
    open spec fn spec_name(&self) -> Seq<char> {
        self.info.name@
    }

    open spec fn spec_description(&self) -> Seq<char> {
        self.info.description@
    }

    open spec fn spec_verify_request(&self, config: PocConfigView) -> ProbeRequestView {
        ProbeRequestView::HttpGet { url: config.target, timeout_secs: self.timeout }
    }

    open spec fn spec_verify_conclude(&self, config: PocConfigView, out: ProbeOutcomeView) -> Result<
        PocResultView,
        PocIssue,
    > {
        match out {
            ProbeOutcomeView::HttpResponse { code, text } => Ok(
                PocResultView {
                    success: 200 <= code < 300,
                    name: self.info.name@,
                    target: config.target,
                    details: Some(example_details(self.info@, text)),
                },
            ),
            ProbeOutcomeView::HttpFailure { detail } => Err(PocIssue::RequestError(detail)),
            _ => Err(PocIssue::ExecutionError(Seq::empty())),
        }
    }

    open spec fn spec_exploit_request(&self, config: PocConfigView) -> Result<
        ProbeRequestView,
        PocIssue,
    > {
        Err(PocIssue::ExecutionError("漏洞利用功能尚未实现"@))
    }

    open spec fn spec_exploit_conclude(&self, config: PocConfigView, out: ProbeOutcomeView) -> Result<
        PocResultView,
        PocIssue,
    > {
        Err(PocIssue::ExecutionError(Seq::empty()))
    }

    fn get_name(&self) -> (r: String)
        ensures
            r@ == self.spec_name(),
    {
        self.info.name.clone()
    }

    fn get_description(&self) -> (r: String)
        ensures
            r@ == self.spec_description(),
    {
        self.info.description.clone()
    }

    fn verify_request(&self, config: &PocConfig) -> (r: ProbeRequest)
        ensures
            r@ == self.spec_verify_request(config@),
    {
        // the version check affirms every target, so the probe always follows
        let _affected = self.check_version(config.target.as_str());
        ProbeRequest::HttpGet { url: config.target.clone(), timeout_secs: self.timeout }
    }

    fn verify_conclude(&self, config: &PocConfig, out: ProbeOutcome) -> (r: Result<
        PocResult,
        PocError,
    >)
        ensures
            poc_outcome_view(r) == self.spec_verify_conclude(config@, out@),
    {
        match out {
            ProbeOutcome::HttpResponse { code, text } => {
                let mut details = ("响应状态: ").to_owned();
                details.append(text.as_str());
                details.append(", CVE编号: ");
                match &self.info.cve_id {
                    Some(c) => details.append(c.as_str()),
                    None => details.append("N/A"),
                }
                Ok(
                    PocResult {
                        success: 200 <= code && code < 300,
                        name: self.info.name.clone(),
                        target: config.target.clone(),
                        details: Some(details),
                    },
                )
            },
            ProbeOutcome::HttpFailure { detail } => Err(PocError::RequestError(detail)),
            _ => {
                let empty = String::new();
                proof {
                    assert(empty@ =~= Seq::<char>::empty());
                }
                Err(PocError::ExecutionError(empty))
            },
        }
    }

    fn exploit_request(&self, config: &PocConfig) -> (r: Result<ProbeRequest, PocError>)
        ensures
            match r {
                Ok(p) => self.spec_exploit_request(config@) == Ok::<ProbeRequestView, PocIssue>(
                    p@,
                ),
                Err(e) => self.spec_exploit_request(config@) == Err::<ProbeRequestView, PocIssue>(
                    e@,
                ),
            },
    {
        Err(PocError::ExecutionError(("漏洞利用功能尚未实现").to_owned()))
    }

    fn exploit_conclude(&self, config: &PocConfig, out: ProbeOutcome) -> (r: Result<
        PocResult,
        PocError,
    >)
        ensures
            poc_outcome_view(r) == self.spec_exploit_conclude(config@, out@),
    {
        let empty = String::new();
        proof {
            assert(empty@ =~= Seq::<char>::empty());
        }
        Err(PocError::ExecutionError(empty))
    }

    proof fn lemma_conclusion_shape(&self, config: PocConfigView, out: ProbeOutcomeView) {
    }
}

} // verus!
