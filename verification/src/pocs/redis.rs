//! The Redis unauthorized-access plugin: verification issues an
//! unauthenticated `INFO` command, exploitation — after a successful
//! verification — writes a test key.

use vstd::prelude::*;
use vstd::string::*;
use crate::poc_core::{
    Poc, PocConfig, PocConfigView, PocError, PocIssue, PocResult, PocResultView, ProbeOutcome,
    ProbeOutcomeView, ProbeRequest, ProbeRequestView, poc_outcome_view,
};

verus! {

/// How grave a vulnerability is.
#[derive(Clone, Copy, Debug, PartialEq, Eq, Structural)]
pub enum Severity {
    Critical,
    High,
    Medium,
    Low,
    Info,
}

/// Static description of the vulnerability this plugin checks for.
#[derive(Debug)]
pub struct VulnInfo {
    pub cve_id: Option<String>,
    pub cwe_id: Option<String>,
    pub name: String,
    pub description: String,
    pub severity: Severity,
    pub affected_versions: Vec<String>,
    pub references: Vec<String>,
}

/// Ghost image of a `VulnInfo`.
#[verifier::ext_equal]
pub ghost struct VulnInfoView {
    pub cve_id: Option<Seq<char>>,
    pub cwe_id: Option<Seq<char>>,
    pub name: Seq<char>,
    pub description: Seq<char>,
    pub severity: Severity,
    pub affected_versions: Seq<Seq<char>>,
    pub references: Seq<Seq<char>>,
}

impl View for VulnInfo {
    type V = VulnInfoView;

    open spec fn view(&self) -> VulnInfoView {
        VulnInfoView {
            cve_id: match &self.cve_id {
                Some(c) => Some(c@),
                None => None,
            },
            cwe_id: match &self.cwe_id {
                Some(c) => Some(c@),
                None => None,
            },
            name: self.name@,
            description: self.description@,
            severity: self.severity,
            affected_versions: self.affected_versions.deep_view(),
            references: self.references.deep_view(),
        }
    }
}

impl Clone for VulnInfo {
    fn clone(&self) -> (r: Self)
        ensures
            r@ == self@,
    {
        let r = VulnInfo {
            cve_id: match &self.cve_id {
                Some(c) => Some(c.clone()),
                None => None,
            },
            cwe_id: match &self.cwe_id {
                Some(c) => Some(c.clone()),
                None => None,
            },
            name: self.name.clone(),
            description: self.description.clone(),
            severity: self.severity,
            affected_versions: crate::pocs::example::clone_string_list(&self.affected_versions),
            references: crate::pocs::example::clone_string_list(&self.references),
        };
        proof {
            assert(r@ =~= self@);
        }
        r
    }
}

/// The Redis unauthorized-access plugin.
#[derive(Debug)]
pub struct RedisPoc {
    pub info: VulnInfo,
}

/// Ghost image of a `RedisPoc`.
#[verifier::ext_equal]
pub ghost struct RedisPocView {
    pub info: VulnInfoView,
}

impl View for RedisPoc {
    type V = RedisPocView;

    open spec fn view(&self) -> RedisPocView {
        RedisPocView { info: self.info@ }
    }
}

impl Clone for RedisPoc {
    fn clone(&self) -> (r: Self)
        ensures
            r@ == self@,
    {
        RedisPoc { info: self.info.clone() }
    }
}

/// The fixed vulnerability description this plugin reports.
pub open spec fn redis_info() -> VulnInfoView {
    VulnInfoView {
        cve_id: None,
        cwe_id: Some("CWE-306"@),
        name: "Redis Unauthorized Access Vulnerability"@,
        description: "Redis服务未配置访问密码，导致可以未经授权访问并操作Redis服务器。"@,
        severity: Severity::High,
        affected_versions: seq!["All"@],
        references: seq!["https://redis.io/topics/security"@],
    }
}

impl RedisPoc {
    /// Builds the plugin with its fixed vulnerability description.
    pub fn new() -> (r: Self)
        ensures
            r@ == (RedisPocView { info: redis_info() }),
    {
        let mut affected: Vec<String> = Vec::new();
        affected.push(("All").to_owned());
        let mut references: Vec<String> = Vec::new();
        references.push(("https://redis.io/topics/security").to_owned());
        let r = RedisPoc {
            info: VulnInfo {
                cve_id: None,
                cwe_id: Some(("CWE-306").to_owned()),
                name: ("Redis Unauthorized Access Vulnerability").to_owned(),
                description: (
                "Redis服务未配置访问密码，导致可以未经授权访问并操作Redis服务器。"
                ).to_owned(),
                severity: Severity::High,
                affected_versions: affected,
                references,
            },
        };
        proof {
            assert(r.info@.affected_versions =~= redis_info().affected_versions);
            assert(r.info@.references =~= redis_info().references);
            assert(r@ =~= (RedisPocView { info: redis_info() }));
        }
        r
    }
}

/// The error a failed stage of a Redis probe maps to: each stage carries its
/// own prefix, as the client reports them.
pub open spec fn redis_stage_error(out: ProbeOutcomeView, write_stage: bool) -> PocIssue {
    match out {
        ProbeOutcomeView::RedisClientFailure { detail } => PocIssue::ExecutionError(
            "Failed to connect to Redis: "@ + detail,
        ),
        ProbeOutcomeView::RedisSessionFailure { detail } => PocIssue::ExecutionError(
            "Failed to establish connection: "@ + detail,
        ),
        ProbeOutcomeView::RedisCommandFailure { detail } => PocIssue::ExecutionError(
            (if write_stage {
                "Failed to write test data: "@
            } else {
                "Failed to execute command: "@
            }) + detail,
        ),
        _ => PocIssue::ExecutionError(Seq::empty()),
    }
}

impl Poc for RedisPoc {
    open spec fn spec_name(&self) -> Seq<char> {
        self.info.name@
    }

    open spec fn spec_description(&self) -> Seq<char> {
        self.info.description@
    }

    open spec fn spec_verify_request(&self, config: PocConfigView) -> ProbeRequestView {
        ProbeRequestView::RedisInfo { target: config.target }
    }

    open spec fn spec_verify_conclude(&self, config: PocConfigView, out: ProbeOutcomeView) -> Result<
        PocResultView,
        PocIssue,
    > {
        match out {
            ProbeOutcomeView::RedisAccess => Ok(
                PocResultView {
                    success: true,
                    name: self.info.name@,
                    target: config.target,
                    details: Some("目标Redis服务存在未授权访问漏洞"@),
                },
            ),
            _ => Err(redis_stage_error(out, false)),
        }
    }

    open spec fn spec_exploit_request(&self, config: PocConfigView) -> Result<
        ProbeRequestView,
        PocIssue,
    > {
        Ok(
            ProbeRequestView::RedisSet {
                target: config.target,
                key: "pocsuite_test_key"@,
                value: "pocsuite_test_value"@,
            },
        )
    }

    open spec fn spec_exploit_conclude(&self, config: PocConfigView, out: ProbeOutcomeView) -> Result<
        PocResultView,
        PocIssue,
    > {
        match out {
            ProbeOutcomeView::RedisWrite => Ok(
                PocResultView {
                    success: true,
                    name: self.info.name@,
                    target: config.target,
                    details: Some(
                        "成功写入测试数据: pocsuite_test_key = pocsuite_test_value"@,
                    ),
                },
            ),
            _ => Err(redis_stage_error(out, true)),
        }
    }

    fn get_name(&self) -> (r: String)
        ensures
            r@ == self.spec_name(),
    {
        self.info.name.clone()
    }

    fn get_description(&self) -> (r: String)
        ensures
            r@ == self.spec_description(),
    {
        self.info.description.clone()
    }

    fn verify_request(&self, config: &PocConfig) -> (r: ProbeRequest)
        ensures
            r@ == self.spec_verify_request(config@),
    {
        ProbeRequest::RedisInfo { target: config.target.clone() }
    }

    fn verify_conclude(&self, config: &PocConfig, out: ProbeOutcome) -> (r: Result<
        PocResult,
        PocError,
    >)
        ensures
            poc_outcome_view(r) == self.spec_verify_conclude(config@, out@),
    {
        match out {
            ProbeOutcome::RedisAccess => Ok(
                PocResult {
                    success: true,
                    name: self.info.name.clone(),
                    target: config.target.clone(),
                    details: Some(("目标Redis服务存在未授权访问漏洞").to_owned()),
                },
            ),
            other => Err(redis_stage_failure(other, false)),
        }
    }

    fn exploit_request(&self, config: &PocConfig) -> (r: Result<ProbeRequest, PocError>)
        ensures
            match r {
                Ok(p) => self.spec_exploit_request(config@) == Ok::<ProbeRequestView, PocIssue>(
                    p@,
                ),
                Err(e) => self.spec_exploit_request(config@) == Err::<ProbeRequestView, PocIssue>(
                    e@,
                ),
            },
    {
        Ok(
            ProbeRequest::RedisSet {
                target: config.target.clone(),
                key: ("pocsuite_test_key").to_owned(),
                value: ("pocsuite_test_value").to_owned(),
            },
        )
    }

    fn exploit_conclude(&self, config: &PocConfig, out: ProbeOutcome) -> (r: Result<
        PocResult,
        PocError,
    >)
        ensures
            poc_outcome_view(r) == self.spec_exploit_conclude(config@, out@),
    {
        match out {
            ProbeOutcome::RedisWrite => Ok(
                PocResult {
                    success: true,
                    name: self.info.name.clone(),
                    target: config.target.clone(),
                    details: Some(
                        ("成功写入测试数据: pocsuite_test_key = pocsuite_test_value").to_owned(),
                    ),
                },
            ),
            other => Err(redis_stage_failure(other, true)),
        }
    }

    proof fn lemma_conclusion_shape(&self, config: PocConfigView, out: ProbeOutcomeView) {
    }
}

/// Builds the error for a failed Redis probe stage.
fn redis_stage_failure(out: ProbeOutcome, write_stage: bool) -> (r: PocError)
    ensures
        r@ == redis_stage_error(out@, write_stage),
{
    match out {
        ProbeOutcome::RedisClientFailure { detail } => {
            let mut m = ("Failed to connect to Redis: ").to_owned();
            m.append(detail.as_str());
            PocError::ExecutionError(m)
        },
        ProbeOutcome::RedisSessionFailure { detail } => {
            let mut m = ("Failed to establish connection: ").to_owned();
            m.append(detail.as_str());
            PocError::ExecutionError(m)
        },
        ProbeOutcome::RedisCommandFailure { detail } => {
            let mut m = if write_stage {
                ("Failed to write test data: ").to_owned()
            } else {
                ("Failed to execute command: ").to_owned()
            };
            m.append(detail.as_str());
            PocError::ExecutionError(m)
        },
        _ => {
            let empty = String::new();
            proof {
                assert(empty@ =~= Seq::<char>::empty());
            }
            PocError::ExecutionError(empty)
        },
    }
}

} // verus!
