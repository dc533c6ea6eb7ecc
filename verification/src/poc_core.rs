//! The plugin execution core: errors, configuration, results, and the
//! contract every proof-of-concept plugin satisfies.
//!
//! A plugin's network activity is reduced to probe requests it hands to the
//! embedding application and probe outcomes it gets back; every decision a
//! plugin or the orchestrator makes about them is verified.

pub mod config;

use vstd::prelude::*;
use vstd::string::*;

verus! {

/// Why a plugin run failed.
#[derive(Debug)]
pub enum PocError {
    /// An HTTP transport failure; the payload is the client's description.
    RequestError(String),
    /// A malformed URL; the payload is the parser's description.
    UrlError(String),
    /// A failure of the check itself; the payload describes it.
    ExecutionError(String),
}

/// Ghost image of a `PocError`.
pub ghost enum PocIssue {
    RequestError(Seq<char>),
    UrlError(Seq<char>),
    ExecutionError(Seq<char>),
}

impl View for PocError {
    type V = PocIssue;

    open spec fn view(&self) -> PocIssue {
        match self {
            PocError::RequestError(m) => PocIssue::RequestError(m@),
            PocError::UrlError(m) => PocIssue::UrlError(m@),
            PocError::ExecutionError(m) => PocIssue::ExecutionError(m@),
        }
    }
}

/// The message a `PocError` renders to.
pub open spec fn poc_error_message(i: PocIssue) -> Seq<char> {
    match i {
        PocIssue::RequestError(m) => "HTTP request error: "@ + m,
        PocIssue::UrlError(m) => "Invalid URL: "@ + m,
        PocIssue::ExecutionError(m) => "POC execution error: "@ + m,
    }
}

impl PocError {
    /// A human-readable description of the failure.
    pub fn message(&self) -> (r: String)
        ensures
            r@ == poc_error_message(self@),
    {
        match self {
            PocError::RequestError(m) => {
                let mut s = ("HTTP request error: ").to_owned();
                s.append(m.as_str());
                s
            },
            PocError::UrlError(m) => {
                let mut s = ("Invalid URL: ").to_owned();
                s.append(m.as_str());
                s
            },
            PocError::ExecutionError(m) => {
                let mut s = ("POC execution error: ").to_owned();
                s.append(m.as_str());
                s
            },
        }
    }
}

/// What one plugin invocation is given: the target, a timeout in seconds,
/// custom request headers, and which modes were requested.
#[derive(Debug)]
pub struct PocConfig {
    pub target: String,
    pub timeout: u64,
    pub headers: Vec<(String, String)>,
    pub verify: bool,
    pub exploit: bool,
}

/// Ghost image of a `PocConfig`.
#[verifier::ext_equal]
pub ghost struct PocConfigView {
    pub target: Seq<char>,
    pub timeout: u64,
    pub headers: Seq<(Seq<char>, Seq<char>)>,
    pub verify: bool,
    pub exploit: bool,
}

impl View for PocConfig {
    type V = PocConfigView;

    open spec fn view(&self) -> PocConfigView {
        PocConfigView {
            target: self.target@,
            timeout: self.timeout,
            headers: self.headers@.map_values(|p: (String, String)| (p.0@, p.1@)),
            verify: self.verify,
            exploit: self.exploit,
        }
    }
}

/// Copies a header list, entry by entry.
pub fn clone_headers(h: &Vec<(String, String)>) -> (r: Vec<(String, String)>)
    ensures
        r@.map_values(|p: (String, String)| (p.0@, p.1@)) == h@.map_values(
            |p: (String, String)| (p.0@, p.1@),
        ),
{
    let mut r: Vec<(String, String)> = Vec::new();
    let mut i: usize = 0;
    while i < h.len()
        invariant
            i <= h@.len(),
            r@.len() == i,
            forall|k: int|
                0 <= k < i ==> (#[trigger] r@[k]).0@ == h@[k].0@ && r@[k].1@ == h@[k].1@,
        decreases h@.len() - i,
    {
        let pair = &h[i];
        r.push((pair.0.clone(), pair.1.clone()));
        i += 1;
    }
    proof {
        assert(r@.map_values(|p: (String, String)| (p.0@, p.1@)) =~= h@.map_values(
            |p: (String, String)| (p.0@, p.1@),
        ));
    }
    r
}

impl Clone for PocConfig {
    fn clone(&self) -> (r: Self)
        ensures
            r@ == self@,
    {
        let r = PocConfig {
            target: self.target.clone(),
            timeout: self.timeout,
            headers: clone_headers(&self.headers),
            verify: self.verify,
            exploit: self.exploit,
        };
        proof {
            assert(r@ =~= self@);
        }
        r
    }
}

/// The outcome of one plugin invocation against one target.
#[derive(Debug)]
pub struct PocResult {
    pub success: bool,
    pub name: String,
    pub target: String,
    pub details: Option<String>,
}

/// Ghost image of a `PocResult`.
#[verifier::ext_equal]
pub ghost struct PocResultView {
    pub success: bool,
    pub name: Seq<char>,
    pub target: Seq<char>,
    pub details: Option<Seq<char>>,
}

impl View for PocResult {
    type V = PocResultView;

    open spec fn view(&self) -> PocResultView {
        PocResultView {
            success: self.success,
            name: self.name@,
            target: self.target@,
            details: match &self.details {
                Some(d) => Some(d@),
                None => None,
            },
        }
    }
}

/// One piece of outside work a plugin asks the application to perform.
#[derive(Debug, PartialEq)]
pub enum ProbeRequest {
    /// An HTTP GET of `url` with the given client timeout.
    HttpGet { url: String, timeout_secs: u64 },
    /// Opening a Redis client against `target` and issuing `INFO`.
    RedisInfo { target: String },
    /// Opening a Redis client against `target` and writing `value` under
    /// `key`.
    RedisSet { target: String, key: String, value: String },
}

/// Ghost image of a `ProbeRequest`.
#[verifier::ext_equal]
pub ghost enum ProbeRequestView {
    HttpGet { url: Seq<char>, timeout_secs: u64 },
    RedisInfo { target: Seq<char> },
    RedisSet { target: Seq<char>, key: Seq<char>, value: Seq<char> },
}

impl View for ProbeRequest {
    type V = ProbeRequestView;

    open spec fn view(&self) -> ProbeRequestView {
        match self {
            ProbeRequest::HttpGet { url, timeout_secs } => ProbeRequestView::HttpGet {
                url: url@,
                timeout_secs: *timeout_secs,
            },
            ProbeRequest::RedisInfo { target } => ProbeRequestView::RedisInfo { target: target@ },
            ProbeRequest::RedisSet { target, key, value } => ProbeRequestView::RedisSet {
                target: target@,
                key: key@,
                value: value@,
            },
        }
    }
}

impl Clone for ProbeRequest {
    fn clone(&self) -> (r: Self)
        ensures
            r@ == self@,
    {
        match self {
            ProbeRequest::HttpGet { url, timeout_secs } => ProbeRequest::HttpGet {
                url: url.clone(),
                timeout_secs: *timeout_secs,
            },
            ProbeRequest::RedisInfo { target } => ProbeRequest::RedisInfo {
                target: target.clone(),
            },
            ProbeRequest::RedisSet { target, key, value } => ProbeRequest::RedisSet {
                target: target.clone(),
                key: key.clone(),
                value: value.clone(),
            },
        }
    }
}

/// What came back from one probe.
#[derive(Debug)]
pub enum ProbeOutcome {
    /// An HTTP response: its status code and the status line as rendered by
    /// the client.
    HttpResponse { code: u16, text: String },
    /// The HTTP request could not be completed.
    HttpFailure { detail: String },
    /// The Redis `INFO` command succeeded without authentication.
    RedisAccess,
    /// The Redis write succeeded.
    RedisWrite,
    /// The Redis client could not be opened.
    RedisClientFailure { detail: String },
    /// The Redis connection could not be established.
    RedisSessionFailure { detail: String },
    /// The Redis command itself failed.
    RedisCommandFailure { detail: String },
}

/// Ghost image of a `ProbeOutcome`.
#[verifier::ext_equal]
pub ghost enum ProbeOutcomeView {
    HttpResponse { code: u16, text: Seq<char> },
    HttpFailure { detail: Seq<char> },
    RedisAccess,
    RedisWrite,
    RedisClientFailure { detail: Seq<char> },
    RedisSessionFailure { detail: Seq<char> },
    RedisCommandFailure { detail: Seq<char> },
}

impl View for ProbeOutcome {
    type V = ProbeOutcomeView;

    open spec fn view(&self) -> ProbeOutcomeView {
        match self {
            ProbeOutcome::HttpResponse { code, text } => ProbeOutcomeView::HttpResponse {
                code: *code,
                text: text@,
            },
            ProbeOutcome::HttpFailure { detail } => ProbeOutcomeView::HttpFailure {
                detail: detail@,
            },
            ProbeOutcome::RedisAccess => ProbeOutcomeView::RedisAccess,
            ProbeOutcome::RedisWrite => ProbeOutcomeView::RedisWrite,
            ProbeOutcome::RedisClientFailure { detail } => ProbeOutcomeView::RedisClientFailure {
                detail: detail@,
            },
            ProbeOutcome::RedisSessionFailure { detail } => ProbeOutcomeView::RedisSessionFailure {
                detail: detail@,
            },
            ProbeOutcome::RedisCommandFailure { detail } => ProbeOutcomeView::RedisCommandFailure {
                detail: detail@,
            },
        }
    }
}

/// Whether an outcome is of the kind the request can produce.
pub open spec fn outcome_answers(req: ProbeRequestView, out: ProbeOutcomeView) -> bool {
    match req {
        ProbeRequestView::HttpGet { .. } => out is HttpResponse || out is HttpFailure,
        ProbeRequestView::RedisInfo { .. } => out is RedisAccess || out is RedisClientFailure
            || out is RedisSessionFailure || out is RedisCommandFailure,
        ProbeRequestView::RedisSet { .. } => out is RedisWrite || out is RedisClientFailure
            || out is RedisSessionFailure || out is RedisCommandFailure,
    }
}

/// Ghost image of a plugin's `Result`.
pub open spec fn poc_outcome_view(r: Result<PocResult, PocError>) -> Result<
    PocResultView,
    PocIssue,
> {
    match r {
        Ok(p) => Ok(p@),
        Err(e) => Err(e@),
    }
}

/// The contract every proof-of-concept plugin satisfies. A plugin never
/// performs outside work itself: `verify` is one probe request plus a
/// verified reading of its outcome, and `exploit` — only ever reached after a
/// successful verification — is one more. A transport failure is always
/// mapped to a `PocError`, never swallowed.
pub trait Poc: Sized {
    /// The plugin's reported name, which also keys the registry.
    spec fn spec_name(&self) -> Seq<char>;

    /// The plugin's vulnerability description.
    spec fn spec_description(&self) -> Seq<char>;

    /// The probe that observes the vulnerability signal.
    spec fn spec_verify_request(&self, config: PocConfigView) -> ProbeRequestView;

    /// What the verification concludes from the probe's outcome.
    spec fn spec_verify_conclude(&self, config: PocConfigView, out: ProbeOutcomeView) -> Result<
        PocResultView,
        PocIssue,
    >;

    /// The probe that exploits a verified vulnerability, or the error the
    /// plugin reports instead of exploiting.
    spec fn spec_exploit_request(&self, config: PocConfigView) -> Result<
        ProbeRequestView,
        PocIssue,
    >;

    /// What the exploitation concludes from the probe's outcome.
    spec fn spec_exploit_conclude(&self, config: PocConfigView, out: ProbeOutcomeView) -> Result<
        PocResultView,
        PocIssue,
    >;

    fn get_name(&self) -> (r: String)
        ensures
            r@ == self.spec_name(),
    ;

    fn get_description(&self) -> (r: String)
        ensures
            r@ == self.spec_description(),
    ;

    fn verify_request(&self, config: &PocConfig) -> (r: ProbeRequest)
        ensures
            r@ == self.spec_verify_request(config@),
    ;

    fn verify_conclude(&self, config: &PocConfig, out: ProbeOutcome) -> (r: Result<
        PocResult,
        PocError,
    >)
        requires
            outcome_answers(self.spec_verify_request(config@), out@),
        ensures
            poc_outcome_view(r) == self.spec_verify_conclude(config@, out@),
    ;

    fn exploit_request(&self, config: &PocConfig) -> (r: Result<ProbeRequest, PocError>)
        ensures
            match r {
                Ok(p) => self.spec_exploit_request(config@) == Ok::<ProbeRequestView, PocIssue>(
                    p@,
                ),
                Err(e) => self.spec_exploit_request(config@) == Err::<ProbeRequestView, PocIssue>(
                    e@,
                ),
            },
    ;

    fn exploit_conclude(&self, config: &PocConfig, out: ProbeOutcome) -> (r: Result<
        PocResult,
        PocError,
    >)
        requires
            self.spec_exploit_request(config@) matches Ok(req) && outcome_answers(req, out@),
        ensures
            poc_outcome_view(r) == self.spec_exploit_conclude(config@, out@),
    ;

    /// A successful conclusion always reports the configured target and the
    /// plugin's own name; every plugin proves this of its decisions.
    proof fn lemma_conclusion_shape(&self, config: PocConfigView, out: ProbeOutcomeView)
        ensures
            self.spec_verify_conclude(config, out) matches Ok(r) ==> r.target == config.target
                && r.name == self.spec_name(),
            self.spec_exploit_conclude(config, out) matches Ok(r) ==> r.target == config.target
                && r.name == self.spec_name(),
    ;
}

} // verus!
