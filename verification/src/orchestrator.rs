//! The execution orchestrator: given a plugin, a comma-separated target list
//! and the requested modes, it runs the plugin against every target in order
//! and collects one result per requested invocation, never aborting the rest
//! of the list over one target's failure.
//!
//! Each invocation is driven probe by probe: the orchestrator hands the
//! embedding application the plugin's next probe request and is fed the
//! outcome. Exploitation always re-verifies first and fails fast — the
//! exploit probe of a target is never issued unless that target's
//! verification succeeded.

use vstd::prelude::*;
use vstd::string::*;
use crate::poc_core::{
    Poc, PocConfig, PocConfigView, PocError, PocIssue, PocResult, PocResultView, ProbeOutcome,
    ProbeOutcomeView, ProbeRequest, ProbeRequestView, clone_headers, outcome_answers,
    poc_error_message,
};
use crate::pocs::{find_entry, PocRegistry, RegisteredPoc};
use crate::text::{split_on, split_str, trim_spec, trim_str};

verus! {

/// What the run is waiting for on the current unit of work.
#[derive(Clone, Copy, Debug, PartialEq, Eq, Structural)]
pub enum RunPhase {
    /// The verification probe of a verification unit.
    AwaitVerify,
    /// The verification probe that an exploitation unit begins with.
    AwaitExploitVerify,
    /// The exploitation probe, reached only after a successful verification.
    AwaitExploit,
}

/// Ghost image of a run in progress.
#[verifier::ext_equal]
pub ghost struct RunView {
    /// The name the run was asked for, used in synthesized failure rows.
    pub name: Seq<char>,
    /// The trimmed targets, in the order they were supplied.
    pub targets: Seq<Seq<char>>,
    /// The base configuration each per-target configuration is built from.
    pub base: PocConfigView,
    pub do_verify: bool,
    pub do_exploit: bool,
    pub phase: RunPhase,
    /// The exploit probe to be performed, once verification has succeeded.
    pub pending: Option<ProbeRequestView>,
    /// One result per completed unit, in unit order.
    pub results: Seq<PocResultView>,
}

/// Results each target contributes: one per requested mode.
pub open spec fn units_per_target(v: RunView) -> int {
    (if v.do_verify {
        1int
    } else {
        0int
    }) + (if v.do_exploit {
        1int
    } else {
        0int
    })
}

/// How many results a finished run holds.
pub open spec fn run_total(v: RunView) -> int {
    v.targets.len() * units_per_target(v)
}

/// The index of the unit in progress: every finished unit left one result.
pub open spec fn run_unit(v: RunView) -> int {
    v.results.len() as int
}

pub open spec fn run_done(v: RunView) -> bool {
    run_unit(v) >= run_total(v)
}

/// Whether the unit in progress is a verification unit; with both modes
/// requested, each target's verification unit comes before its exploitation
/// unit.
pub open spec fn unit_is_verify(v: RunView) -> bool {
    if v.do_verify && v.do_exploit {
        run_unit(v) % 2 == 0
    } else {
        v.do_verify
    }
}

/// The target of the unit in progress.
pub open spec fn run_target(v: RunView) -> Seq<char> {
    v.targets[run_unit(v) / units_per_target(v)]
}

/// The configuration the unit in progress is run with: the base
/// configuration with the target overwritten.
pub open spec fn run_config(v: RunView) -> PocConfigView {
    PocConfigView { target: run_target(v), ..v.base }
}

/// A synthesized failure row: the run's plugin name, the unit's target, and
/// the error rendered behind the mode's failure prefix.
pub open spec fn failure_result(v: RunView, verify_mode: bool, e: PocIssue) -> PocResultView {
    PocResultView {
        success: false,
        name: v.name,
        target: run_target(v),
        details: Some(
            (if verify_mode {
                "检测失败: "@
            } else {
                "利用失败: "@
            }) + poc_error_message(e),
        ),
    }
}

/// Appends the unit's result and turns to the next unit.
pub open spec fn push_result(v: RunView, r: PocResultView) -> RunView {
    let v2 = RunView { results: v.results.push(r), pending: None, ..v };
    RunView {
        phase: if unit_is_verify(v2) {
            RunPhase::AwaitVerify
        } else {
            RunPhase::AwaitExploitVerify
        },
        ..v2
    }
}

/// The whole transition relation of a run: what one probe outcome does to
/// the state. A verification unit concludes at once, successful or
/// synthesized. An exploitation unit first reads its verification outcome:
/// any failure — an error, an unsuccessful verification, or a plugin that
/// declines to exploit — concludes the unit with a synthesized failure;
/// only a successful verification arms the exploit probe.
pub open spec fn run_step<P: Poc>(poc: &P, v: RunView, out: ProbeOutcomeView) -> RunView {
    match v.phase {
        RunPhase::AwaitVerify => {
            match poc.spec_verify_conclude(run_config(v), out) {
                Ok(r) => push_result(v, r),
                Err(e) => push_result(v, failure_result(v, true, e)),
            }
        },
        RunPhase::AwaitExploitVerify => {
            match poc.spec_verify_conclude(run_config(v), out) {
                Err(e) => push_result(v, failure_result(v, false, e)),
                Ok(r) => {
                    if !r.success {
                        push_result(
                            v,
                            failure_result(
                                v,
                                false,
                                PocIssue::ExecutionError("目标不存在漏洞"@),
                            ),
                        )
                    } else {
                        match poc.spec_exploit_request(run_config(v)) {
                            Err(e) => push_result(v, failure_result(v, false, e)),
                            Ok(req) => RunView {
                                phase: RunPhase::AwaitExploit,
                                pending: Some(req),
                                ..v
                            },
                        }
                    }
                },
            }
        },
        RunPhase::AwaitExploit => {
            match poc.spec_exploit_conclude(run_config(v), out) {
                Ok(r) => push_result(v, r),
                Err(e) => push_result(v, failure_result(v, false, e)),
            }
        },
    }
}

/// What a run keeps true between probes: the position is in range, the phase
/// matches the unit's mode, an armed exploit probe is the plugin's own, and
/// every recorded result names the target it belongs to.
pub open spec fn run_wf<P: Poc>(poc: &P, v: RunView) -> bool {
    &&& run_unit(v) <= run_total(v)
    &&& (!run_done(v) && v.phase is AwaitVerify) ==> v.do_verify && unit_is_verify(v)
        && v.pending is None
    &&& (!run_done(v) && v.phase is AwaitExploitVerify) ==> v.do_exploit && !unit_is_verify(v)
        && v.pending is None
    &&& (!run_done(v) && v.phase is AwaitExploit) ==> v.do_exploit && !unit_is_verify(v) && (
    v.pending matches Some(req) && poc.spec_exploit_request(run_config(v)) == Ok::<
        ProbeRequestView,
        PocIssue,
    >(req))
    &&& forall|k: int|
        0 <= k < v.results.len() ==> (#[trigger] v.results[k]).target == v.targets[k
            / units_per_target(v)]
}

/// The probe the run wants performed next; `None` when every unit is done.
pub open spec fn run_request<P: Poc>(poc: &P, v: RunView) -> Option<ProbeRequestView> {
    if run_done(v) {
        None
    } else {
        match v.phase {
            RunPhase::AwaitVerify => Some(poc.spec_verify_request(run_config(v))),
            RunPhase::AwaitExploitVerify => Some(poc.spec_verify_request(run_config(v))),
            RunPhase::AwaitExploit => v.pending,
        }
    }
}

/// The starting state of a run.
pub open spec fn initial_run(name: Seq<char>, targets: Seq<Seq<char>>, base: PocConfigView,
    verify: bool, exploit: bool) -> RunView {
    RunView {
        name,
        targets,
        base,
        do_verify: verify,
        do_exploit: exploit,
        phase: if verify {
            RunPhase::AwaitVerify
        } else {
            RunPhase::AwaitExploitVerify
        },
        pending: None,
        results: Seq::empty(),
    }
}

proof fn lemma_total_sign(v: RunView)
    ensures
        run_total(v) >= 0,
        units_per_target(v) == 0 ==> run_total(v) == 0,
        units_per_target(v) >= 1 ==> run_total(v) >= v.targets.len(),
{
    let n = v.targets.len() as int;
    let q = units_per_target(v);
    assert(n * q >= 0) by (nonlinear_arith)
        requires n >= 0 && q >= 0;
    if q == 0 {
        assert(n * q == 0) by (nonlinear_arith)
            requires q == 0;
    }
    if q >= 1 {
        assert(n * q >= n) by (nonlinear_arith)
            requires n >= 0 && q >= 1;
    }
}

proof fn lemma_div_compare(u: int, q: int, n: int)
    requires
        u >= 0,
        q >= 1,
        n >= 0,
    ensures
        (u / q >= n) <==> (u >= n * q),
{
    vstd::arithmetic::div_mod::lemma_fundamental_div_mod(u, q);
    vstd::arithmetic::div_mod::lemma_mod_bound(u, q);
    if u / q >= n {
        vstd::arithmetic::mul::lemma_mul_inequality(n, u / q, q);
        assert(q * (u / q) == (u / q) * q) by (nonlinear_arith);
    }
    if u >= n * q && u / q < n {
        vstd::arithmetic::mul::lemma_mul_inequality(u / q + 1, n, q);
        assert((u / q + 1) * q == q * (u / q) + q) by (nonlinear_arith);
    }
}

proof fn lemma_unit_target_bound(v: RunView)
    requires
        units_per_target(v) >= 1,
        run_unit(v) < run_total(v),
    ensures
        0 <= run_unit(v) / units_per_target(v) < v.targets.len(),
{
    let u = run_unit(v);
    let q = units_per_target(v);
    let n = v.targets.len() as int;
    vstd::arithmetic::div_mod::lemma_fundamental_div_mod(u, q);
    vstd::arithmetic::div_mod::lemma_mod_bound(u, q);
    if u / q >= n {
        vstd::arithmetic::mul::lemma_mul_inequality(n, u / q, q);
        assert(n * q <= (u / q) * q) by (nonlinear_arith)
            requires n <= u / q && q >= 1 && n * q <= (u / q) * q;
        assert(q * (u / q) == (u / q) * q) by (nonlinear_arith);
        assert(n * q == q * n) by (nonlinear_arith);
    }
}

/// One run of one plugin against a target list: the verified state machine
/// the embedding application drives probe by probe.
pub struct PocRun<P: Poc> {
    pub poc: P,
    pub poc_name: String,
    pub targets: Vec<String>,
    pub base: PocConfig,
    pub do_verify: bool,
    pub do_exploit: bool,
    pub phase: RunPhase,
    pub pending: Option<ProbeRequest>,
    pub results: Vec<PocResult>,
}

impl<P: Poc> View for PocRun<P> {
    type V = RunView;

    open spec fn view(&self) -> RunView {
        RunView {
            name: self.poc_name@,
            targets: self.targets.deep_view(),
            base: self.base@,
            do_verify: self.do_verify,
            do_exploit: self.do_exploit,
            phase: self.phase,
            pending: match &self.pending {
                Some(r) => Some(r@),
                None => None,
            },
            results: self.results@.map_values(|r: PocResult| r@),
        }
    }
}

impl<P: Poc> PocRun<P> {
    /// Starts a run of `poc` under the reported name `poc_name` against the
    /// comma-separated, trimmed targets of `target_list`.
    pub fn start(poc: P, poc_name: String, target_list: &str, verify: bool, exploit: bool,
        base: &PocConfig) -> (r: PocRun<P>)
        ensures
            r@ == initial_run(
                poc_name@,
                split_on(target_list@, ',').map_values(|a: Seq<char>| trim_spec(a)),
                base@,
                verify,
                exploit,
            ),
            r.poc == poc,
            run_wf(&r.poc, r@),
    {
        let parts = split_str(target_list, ',');
        let ghost tv = split_on(target_list@, ',').map_values(|a: Seq<char>| trim_spec(a));
        let mut targets: Vec<String> = Vec::new();
        let mut t: usize = 0;
        while t < parts.len()
            invariant
                parts.deep_view() == split_on(target_list@, ','),
                tv == split_on(target_list@, ',').map_values(|a: Seq<char>| trim_spec(a)),
                tv.len() == parts@.len(),
                t <= parts@.len(),
                targets@.len() == t,
                forall|k: int| 0 <= k < t ==> #[trigger] targets@[k]@ == tv[k],
            decreases parts@.len() - t,
        {
            proof {
                assert(parts.deep_view()[t as int] == parts@[t as int]@);
                assert(tv[t as int] == trim_spec(parts@[t as int]@));
            }
            targets.push(trim_str(parts[t].as_str()));
            t += 1;
        }
        let r = PocRun {
            poc,
            poc_name,
            targets,
            base: base.clone(),
            do_verify: verify,
            do_exploit: exploit,
            phase: if verify {
                RunPhase::AwaitVerify
            } else {
                RunPhase::AwaitExploitVerify
            },
            pending: None,
            results: Vec::new(),
        };
        proof {
            assert(r.targets.deep_view() =~= tv);
            assert(r.results@.map_values(|x: PocResult| x@) =~= Seq::<PocResultView>::empty());
            assert(r@ =~= initial_run(r.poc_name@, tv, base@, verify, exploit));
            lemma_total_sign(r@);
        }
        r
    }

    /// True when every unit has produced its result.
    pub fn is_finished(&self) -> (r: bool)
        ensures
            r == run_done(self@),
    {
        let upt: usize = (if self.do_verify {
            1
        } else {
            0
        }) + (if self.do_exploit {
            1
        } else {
            0
        });
        proof {
            assert(self.targets.deep_view().len() == self.targets@.len());
            assert(self.results@.map_values(|r: PocResult| r@).len() == self.results@.len());
            lemma_total_sign(self@);
        }
        if upt == 0 {
            return true;
        }
        proof {
            lemma_div_compare(
                self.results@.len() as int,
                upt as int,
                self.targets@.len() as int,
            );
        }
        self.results.len() / upt >= self.targets.len()
    }

    /// The per-target configuration of the unit in progress.
    fn make_config(&self) -> (r: PocConfig)
        requires
            run_wf(&self.poc, self@),
            !run_done(self@),
        ensures
            r@ == run_config(self@),
    {
        let upt: usize = (if self.do_verify {
            1
        } else {
            0
        }) + (if self.do_exploit {
            1
        } else {
            0
        });
        proof {
            assert(self.targets.deep_view().len() == self.targets@.len());
            assert(upt as int == units_per_target(self@));
            assert(upt >= 1) by {
                if upt == 0 {
                    assert(run_total(self@) == 0) by (nonlinear_arith)
                        requires
                            units_per_target(self@) == 0,
                            run_total(self@) == self@.targets.len() * units_per_target(self@);
                }
            }
            lemma_unit_target_bound(self@);
            assert(self.results@.map_values(|r: PocResult| r@).len() == self.results@.len());
        }
        let ti = self.results.len() / upt;
        proof {
            assert(self.targets.deep_view()[ti as int] == self.targets@[ti as int]@);
        }
        let r = PocConfig {
            target: self.targets[ti].clone(),
            timeout: self.base.timeout,
            headers: clone_headers(&self.base.headers),
            verify: self.base.verify,
            exploit: self.base.exploit,
        };
        proof {
            assert(r@ =~= run_config(self@));
        }
        r
    }

    /// The probe to perform next; `None` when the run is finished.
    pub fn next_request(&self) -> (r: Option<ProbeRequest>)
        requires
            run_wf(&self.poc, self@),
        ensures
            match r {
                Some(p) => run_request(&self.poc, self@) == Some(p@),
                None => run_request(&self.poc, self@) is None,
            },
    {
        if self.is_finished() {
            return None;
        }
        match self.phase {
            RunPhase::AwaitVerify => {
                let config = self.make_config();
                Some(self.poc.verify_request(&config))
            },
            RunPhase::AwaitExploitVerify => {
                let config = self.make_config();
                Some(self.poc.verify_request(&config))
            },
            RunPhase::AwaitExploit => {
                match &self.pending {
                    Some(p) => Some(p.clone()),
                    None => {
                        proof {
                            assert(false);
                        }
                        None
                    },
                }
            },
        }
    }

    /// A synthesized failure row for the unit in progress.
    fn failure_row(&self, verify_mode: bool, e: &PocError) -> (r: PocResult)
        requires
            run_wf(&self.poc, self@),
            !run_done(self@),
        ensures
            r@ == failure_result(self@, verify_mode, e@),
    {
        let config = self.make_config();
        let mut details = if verify_mode {
            ("检测失败: ").to_owned()
        } else {
            ("利用失败: ").to_owned()
        };
        details.append(e.message().as_str());
        PocResult {
            success: false,
            name: self.poc_name.clone(),
            target: config.target,
            details: Some(details),
        }
    }

    /// Feeds the outcome of the probe that `next_request` asked for.
    pub fn feed(&mut self, outcome: ProbeOutcome)
        requires
            run_wf(&old(self).poc, old(self)@),
            run_request(&old(self).poc, old(self)@) matches Some(req) && outcome_answers(
                req,
                outcome@,
            ),
        ensures
            final(self).poc == old(self).poc,
            final(self)@ == run_step(&old(self).poc, old(self)@, outcome@),
            run_wf(&final(self).poc, final(self)@),
    {
        let ghost pre = self@;
        let config = self.make_config();
        let step_result: PocResult;
        match self.phase {
            RunPhase::AwaitVerify => {
                match self.poc.verify_conclude(&config, outcome) {
                    Ok(r) => {
                        proof {
                            self.poc.lemma_conclusion_shape(config@, outcome@);
                        }
                        step_result = r;
                    },
                    Err(e) => {
                        step_result = self.failure_row(true, &e);
                    },
                }
            },
            RunPhase::AwaitExploitVerify => {
                match self.poc.verify_conclude(&config, outcome) {
                    Err(e) => {
                        step_result = self.failure_row(false, &e);
                    },
                    Ok(r) => {
                        if !r.success {
                            let e = PocError::ExecutionError(("目标不存在漏洞").to_owned());
                            step_result = self.failure_row(false, &e);
                        } else {
                            match self.poc.exploit_request(&config) {
                                Err(e) => {
                                    step_result = self.failure_row(false, &e);
                                },
                                Ok(req) => {
                                    self.pending = Some(req);
                                    self.phase = RunPhase::AwaitExploit;
                                    proof {
                                        assert(self@ =~= run_step(
                                            &old(self).poc,
                                            pre,
                                            outcome@,
                                        ));
                                    }
                                    return ;
                                },
                            }
                        }
                    },
                }
            },
            RunPhase::AwaitExploit => {
                match self.poc.exploit_conclude(&config, outcome) {
                    Ok(r) => {
                        proof {
                            self.poc.lemma_conclusion_shape(config@, outcome@);
                        }
                        step_result = r;
                    },
                    Err(e) => {
                        step_result = self.failure_row(false, &e);
                    },
                }
            },
        }
        let ghost rv = step_result@;
        self.results.push(step_result);
        self.pending = None;
        let ghost mid = self@;
        proof {
            assert(mid.results =~= pre.results.push(rv));
        }
        let upt: usize = (if self.do_verify {
            1
        } else {
            0
        }) + (if self.do_exploit {
            1
        } else {
            0
        });
        let next_verify: bool = if self.do_verify && self.do_exploit {
            self.results.len() % 2 == 0
        } else {
            self.do_verify
        };
        self.phase = if next_verify {
            RunPhase::AwaitVerify
        } else {
            RunPhase::AwaitExploitVerify
        };
        proof {
            assert(self.results@.map_values(|r: PocResult| r@).len() == self.results@.len());
            assert(self@ =~= push_result(pre, rv));
            lemma_step_preserves_wf(&old(self).poc, pre, outcome@);
        }
    }

    /// Hands over the collected results, in unit order.
    pub fn into_results(self) -> (r: Vec<PocResult>)
        ensures
            r@.map_values(|x: PocResult| x@) == self@.results,
    {
        let PocRun { results, .. } = self;
        results
    }
}

/// One transition keeps the run well-formed.
proof fn lemma_step_preserves_wf<P: Poc>(poc: &P, v: RunView, out: ProbeOutcomeView)
    requires
        run_wf(poc, v),
        !run_done(v),
    ensures
        run_wf(poc, run_step(poc, v, out)),
{
    let post = run_step(poc, v, out);
    poc.lemma_conclusion_shape(run_config(v), out);
    if post.phase is AwaitExploit && post.pending is Some {
        assert(post.results == v.results);
    }
    assert forall|k: int| 0 <= k < post.results.len() implies (#[trigger] post.results[k]).target
        == post.targets[k / units_per_target(post)] by {
        if k < v.results.len() {
            assert(v.results[k].target == v.targets[k / units_per_target(v)]);
        }
    }
}

/// Law: a finished verification-only run holds exactly one result per
/// supplied target, in order, each result naming its own target — even where
/// an invocation failed and its row was synthesized.
pub proof fn lemma_verify_run_covers_targets<P: Poc>(poc: &P, v: RunView)
    requires
        run_wf(poc, v),
        v.do_verify,
        !v.do_exploit,
        run_done(v),
    ensures
        v.results.len() == v.targets.len(),
        forall|k: int| 0 <= k < v.results.len() ==> (#[trigger] v.results[k]).target == v.targets[k],
{
    assert(units_per_target(v) == 1);
    assert(run_total(v) == v.targets.len() * 1);
    assert(v.targets.len() * 1 == v.targets.len()) by (nonlinear_arith);
    assert forall|k: int| 0 <= k < v.results.len() implies (#[trigger] v.results[k]).target
        == v.targets[k] by {
        assert(v.results[k].target == v.targets[k / 1]);
        assert(k / 1 == k);
    }
}

/// Law: when the verification that opens an exploitation unit concludes
/// without success, the unit yields a synthesized failure row for that
/// target and the exploit probe is never armed — the run moves straight on.
pub proof fn lemma_failed_verify_blocks_exploit<P: Poc>(poc: &P, v: RunView, out: ProbeOutcomeView)
    requires
        run_wf(poc, v),
        !run_done(v),
        v.phase is AwaitExploitVerify,
        poc.spec_verify_conclude(run_config(v), out) matches Ok(r) && !r.success,
    ensures
        run_step(poc, v, out).results == v.results.push(
            failure_result(v, false, PocIssue::ExecutionError("目标不存在漏洞"@)),
        ),
        !(run_step(poc, v, out).results.last().success),
        run_step(poc, v, out).results.last().target == run_target(v),
        !(run_step(poc, v, out).phase is AwaitExploit),
        run_step(poc, v, out).pending is None,
{
}

/// Law: the only transition that arms the exploit probe is a successful
/// verification in an exploitation unit; no other step ever issues a
/// plugin's exploit request.
pub proof fn lemma_exploit_needs_verified<P: Poc>(poc: &P, v: RunView, out: ProbeOutcomeView)
    requires
        run_wf(poc, v),
        !run_done(v),
    ensures
        run_step(poc, v, out).phase is AwaitExploit ==> v.phase is AwaitExploitVerify && (
        poc.spec_verify_conclude(run_config(v), out) matches Ok(r) && r.success),
{
}

/// Fetches the selected plugin from the registry and runs it per target.
pub struct ExecutionOrchestrator {
    pub registry: PocRegistry,
}

impl ExecutionOrchestrator {
    /// Wraps an explicitly built registry; the caller decides what is
    /// registered.
    pub fn new(registry: PocRegistry) -> (r: Self)
        ensures
            r.registry == registry,
    {
        ExecutionOrchestrator { registry }
    }

    /// Starts a run of the named plugin against the comma-separated targets.
    /// A missing plugin name is reported once, and no target is processed.
    pub fn start_run(&self, poc_name: &str, target_list: &str, verify: bool, exploit: bool,
        base: &PocConfig) -> (r: Result<PocRun<RegisteredPoc>, PocError>)
        ensures
            match r {
                Ok(run) => {
                    &&& find_entry(self.registry@, poc_name@) is Some
                    &&& run@ == initial_run(
                        poc_name@,
                        split_on(target_list@, ',').map_values(|a: Seq<char>| trim_spec(a)),
                        base@,
                        verify,
                        exploit,
                    )
                    &&& run_wf(&run.poc, run@)
                },
                Err(e) => find_entry(self.registry@, poc_name@) is None && e@
                    == PocIssue::ExecutionError("POC "@ + poc_name@ + " not found"@),
            },
    {
        match self.registry.get(poc_name) {
            Some(poc) => Ok(
                PocRun::start(poc, poc_name.to_owned(), target_list, verify, exploit, base),
            ),
            None => {
                let mut m = ("POC ").to_owned();
                m.append(poc_name);
                m.append(" not found");
                Err(PocError::ExecutionError(m))
            },
        }
    }
}

} // verus!
