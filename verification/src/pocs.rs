//! The plugin collection: the concrete plugins, the registry that maps each
//! plugin's reported name to a shared instance, and the catalogue manager.

pub mod example;
pub mod manager;
pub mod redis;

pub use example::ExamplePoc;
pub use manager::{PocInfo, PocManager};

use vstd::prelude::*;
use vstd::string::*;
use vstd::pervasive::VecAdditionalExecFns;
use crate::text::str_eq;
use crate::poc_core::{
    Poc, PocConfig, PocConfigView, PocError, PocIssue, PocResult, PocResultView, ProbeOutcome,
    ProbeOutcomeView, ProbeRequest, ProbeRequestView, poc_outcome_view,
};
use crate::pocs::redis::RedisPoc;

verus! {

/// One registered plugin; the set of concrete checks is closed here, while
/// every caller goes through the `Poc` contract alone.
#[derive(Debug)]
pub enum RegisteredPoc {
    Example(ExamplePoc),
    Redis(RedisPoc),
}

/// Ghost image of a `RegisteredPoc`.
#[verifier::ext_equal]
pub ghost enum RegisteredPocView {
    Example(example::ExamplePocView),
    Redis(redis::RedisPocView),
}

impl View for RegisteredPoc {
    type V = RegisteredPocView;

    open spec fn view(&self) -> RegisteredPocView {
        match self {
            RegisteredPoc::Example(p) => RegisteredPocView::Example(p@),
            RegisteredPoc::Redis(p) => RegisteredPocView::Redis(p@),
        }
    }
}

impl Clone for RegisteredPoc {
    fn clone(&self) -> (r: Self)
        ensures
            r@ == self@,
    {
        match self {
            RegisteredPoc::Example(p) => RegisteredPoc::Example(p.clone()),
            RegisteredPoc::Redis(p) => RegisteredPoc::Redis(p.clone()),
        }
    }
}

impl Poc for RegisteredPoc {
    open spec fn spec_name(&self) -> Seq<char> {
        match self {
            RegisteredPoc::Example(p) => p.spec_name(),
            RegisteredPoc::Redis(p) => p.spec_name(),
        }
    }

    open spec fn spec_description(&self) -> Seq<char> {
        match self {
            RegisteredPoc::Example(p) => p.spec_description(),
            RegisteredPoc::Redis(p) => p.spec_description(),
        }
    }

    open spec fn spec_verify_request(&self, config: PocConfigView) -> ProbeRequestView {
        match self {
            RegisteredPoc::Example(p) => p.spec_verify_request(config),
            RegisteredPoc::Redis(p) => p.spec_verify_request(config),
        }
    }

    open spec fn spec_verify_conclude(&self, config: PocConfigView, out: ProbeOutcomeView) -> Result<
        PocResultView,
        PocIssue,
    > {
        match self {
            RegisteredPoc::Example(p) => p.spec_verify_conclude(config, out),
            RegisteredPoc::Redis(p) => p.spec_verify_conclude(config, out),
        }
    }

    open spec fn spec_exploit_request(&self, config: PocConfigView) -> Result<
        ProbeRequestView,
        PocIssue,
    > {
        match self {
            RegisteredPoc::Example(p) => p.spec_exploit_request(config),
            RegisteredPoc::Redis(p) => p.spec_exploit_request(config),
        }
    }

    open spec fn spec_exploit_conclude(&self, config: PocConfigView, out: ProbeOutcomeView) -> Result<
        PocResultView,
        PocIssue,
    > {
        match self {
            RegisteredPoc::Example(p) => p.spec_exploit_conclude(config, out),
            RegisteredPoc::Redis(p) => p.spec_exploit_conclude(config, out),
        }
    }

    fn get_name(&self) -> (r: String)
        ensures
            r@ == self.spec_name(),
    {
        match self {
            RegisteredPoc::Example(p) => p.get_name(),
            RegisteredPoc::Redis(p) => p.get_name(),
        }
    }

    fn get_description(&self) -> (r: String)
        ensures
            r@ == self.spec_description(),
    {
        match self {
            RegisteredPoc::Example(p) => p.get_description(),
            RegisteredPoc::Redis(p) => p.get_description(),
        }
    }

    fn verify_request(&self, config: &PocConfig) -> (r: ProbeRequest)
        ensures
            r@ == self.spec_verify_request(config@),
    {
        match self {
            RegisteredPoc::Example(p) => p.verify_request(config),
            RegisteredPoc::Redis(p) => p.verify_request(config),
        }
    }

    fn verify_conclude(&self, config: &PocConfig, out: ProbeOutcome) -> (r: Result<
        PocResult,
        PocError,
    >)
        ensures
            poc_outcome_view(r) == self.spec_verify_conclude(config@, out@),
    {
        match self {
            RegisteredPoc::Example(p) => p.verify_conclude(config, out),
            RegisteredPoc::Redis(p) => p.verify_conclude(config, out),
        }
    }

    fn exploit_request(&self, config: &PocConfig) -> (r: Result<ProbeRequest, PocError>)
        ensures
            match r {
                Ok(p) => self.spec_exploit_request(config@) == Ok::<ProbeRequestView, PocIssue>(
                    p@,
                ),
                Err(e) => self.spec_exploit_request(config@) == Err::<ProbeRequestView, PocIssue>(
                    e@,
                ),
            },
    {
        match self {
            RegisteredPoc::Example(p) => p.exploit_request(config),
            RegisteredPoc::Redis(p) => p.exploit_request(config),
        }
    }

    fn exploit_conclude(&self, config: &PocConfig, out: ProbeOutcome) -> (r: Result<
        PocResult,
        PocError,
    >)
        ensures
            poc_outcome_view(r) == self.spec_exploit_conclude(config@, out@),
    {
        match self {
            RegisteredPoc::Example(p) => p.exploit_conclude(config, out),
            RegisteredPoc::Redis(p) => p.exploit_conclude(config, out),
        }
    }

    proof fn lemma_conclusion_shape(&self, config: PocConfigView, out: ProbeOutcomeView) {
        match self {
            RegisteredPoc::Example(p) => p.lemma_conclusion_shape(config, out),
            RegisteredPoc::Redis(p) => p.lemma_conclusion_shape(config, out),
        }
    }
}

/// The registry's contents as name–plugin pairs.
pub open spec fn registry_view(entries: Seq<(String, RegisteredPoc)>) -> Seq<
    (Seq<char>, RegisteredPoc),
> {
    entries.map_values(|e: (String, RegisteredPoc)| (e.0@, e.1))
}

/// Index of the entry registered under `name`, if any.
pub open spec fn find_entry(s: Seq<(Seq<char>, RegisteredPoc)>, name: Seq<char>) -> Option<int>
    decreases s.len()
{
    if s.len() == 0 {
        None
    } else if s[0].0 == name {
        Some(0)
    } else {
        match find_entry(s.skip(1), name) {
            Some(i) => Some(i + 1),
            None => None,
        }
    }
}

proof fn lemma_find_entry_at(s: Seq<(Seq<char>, RegisteredPoc)>, name: Seq<char>, j: int)
    requires
        0 <= j < s.len(),
        s[j].0 == name,
        forall|k: int| 0 <= k < j ==> (#[trigger] s[k]).0 != name,
    ensures
        find_entry(s, name) == Some(j),
    decreases j,
{
    if j > 0 {
        let t = s.skip(1);
        assert(forall|k: int| 0 <= k < t.len() ==> #[trigger] t[k] == s[k + 1]);
        lemma_find_entry_at(t, name, j - 1);
    }
}

proof fn lemma_find_entry_none(s: Seq<(Seq<char>, RegisteredPoc)>, name: Seq<char>)
    requires
        forall|k: int| 0 <= k < s.len() ==> (#[trigger] s[k]).0 != name,
    ensures
        find_entry(s, name) is None,
    decreases s.len(),
{
    if s.len() > 0 {
        let t = s.skip(1);
        assert(forall|k: int| 0 <= k < t.len() ==> #[trigger] t[k] == s[k + 1]);
        lemma_find_entry_none(t, name);
    }
}

/// The registry: a mapping from each plugin's reported name to a shared,
/// read-only instance. Registration replaces an instance registered under the
/// same name; lookups hand out their own copy of the instance.
pub struct PocRegistry {
    entries: Vec<(String, RegisteredPoc)>,
}

impl View for PocRegistry {
    type V = Seq<(Seq<char>, RegisteredPoc)>;

    closed spec fn view(&self) -> Seq<(Seq<char>, RegisteredPoc)> {
        registry_view(self.entries@)
    }
}

impl PocRegistry {
    /// An empty registry.
    pub fn new() -> (r: Self)
        ensures
            r@ == Seq::<(Seq<char>, RegisteredPoc)>::empty(),
    {
        let r = PocRegistry { entries: Vec::new() };
        proof {
            assert(r@ =~= Seq::<(Seq<char>, RegisteredPoc)>::empty());
        }
        r
    }

    /// Adds a plugin under its reported name, replacing any plugin already
    /// registered under that name.
    pub fn register(&mut self, poc: RegisteredPoc)
        ensures
            final(self)@ == (match find_entry(old(self)@, poc.spec_name()) {
                Some(i) => old(self)@.update(i, (poc.spec_name(), poc)),
                None => old(self)@.push((poc.spec_name(), poc)),
            }),
    {
        let name = poc.get_name();
        let ghost pre = self@;
        let mut i: usize = 0;
        while i < self.entries.len()
            invariant
                self@ == pre,
                pre == old(self)@,
                name@ == poc.spec_name(),
                i <= pre.len(),
                pre.len() == self.entries@.len(),
                forall|k: int| 0 <= k < i ==> (#[trigger] pre[k]).0 != name@,
                forall|k: int|
                    0 <= k < pre.len() ==> #[trigger] pre[k] == (
                        self.entries@[k].0@,
                        self.entries@[k].1,
                    ),
            decreases pre.len() - i,
        {
            if str_eq(self.entries[i].0.as_str(), name.as_str()) {
                proof {
                    lemma_find_entry_at(pre, name@, i as int);
                }
                self.entries.set(i, (name, poc));
                proof {
                    assert(self@ =~= pre.update(i as int, (pre[i as int].0, self.entries@[i as int].1)));
                }
                return ;
            }
            i += 1;
        }
        proof {
            lemma_find_entry_none(pre, name@);
        }
        self.entries.push((name, poc));
        proof {
            assert(self@ =~= pre.push((poc.spec_name(), poc)));
        }
    }

    /// Looks a plugin up by name; the caller gets its own copy of the shared
    /// instance.
    pub fn get(&self, name: &str) -> (r: Option<RegisteredPoc>)
        ensures
            match r {
                Some(p) => find_entry(self@, name@) matches Some(i) && p@ == self@[i].1@
                    && p.spec_name() == self@[i].1.spec_name(),
                None => find_entry(self@, name@) is None,
            },
    {
        let mut i: usize = 0;
        while i < self.entries.len()
            invariant
                self@.len() == self.entries@.len(),
                i <= self@.len(),
                forall|k: int| 0 <= k < i ==> (#[trigger] self@[k]).0 != name@,
                forall|k: int|
                    0 <= k < self@.len() ==> #[trigger] self@[k] == (
                        self.entries@[k].0@,
                        self.entries@[k].1,
                    ),
            decreases self@.len() - i,
        {
            if str_eq(self.entries[i].0.as_str(), name) {
                proof {
                    lemma_find_entry_at(self@, name@, i as int);
                }
                let p = self.entries[i].1.clone();
                proof {
                    lemma_clone_preserves_poc(self.entries@[i as int].1, p);
                }
                return Some(p);
            }
            i += 1;
        }
        proof {
            lemma_find_entry_none(self@, name@);
        }
        None
    }

    /// The names of every registered plugin, in registration order.
    pub fn list(&self) -> (r: Vec<String>)
        ensures
            r.deep_view() == self@.map_values(|e: (Seq<char>, RegisteredPoc)| e.0),
    {
        let mut r: Vec<String> = Vec::new();
        let mut i: usize = 0;
        while i < self.entries.len()
            invariant
                self@.len() == self.entries@.len(),
                i <= self@.len(),
                r@.len() == i,
                forall|k: int| 0 <= k < i ==> #[trigger] r@[k]@ == self@[k].0,
                forall|k: int|
                    0 <= k < self@.len() ==> #[trigger] self@[k] == (
                        self.entries@[k].0@,
                        self.entries@[k].1,
                    ),
            decreases self@.len() - i,
        {
            r.push(self.entries[i].0.clone());
            i += 1;
        }
        proof {
            assert(r.deep_view() =~= self@.map_values(|e: (Seq<char>, RegisteredPoc)| e.0));
        }
        r
    }
}

/// A fresh copy of a registered plugin answers every `Poc` spec function the
/// way the source instance does: both are determined by the plugin's view.
pub proof fn lemma_clone_preserves_poc(a: RegisteredPoc, b: RegisteredPoc)
    requires
        a@ == b@,
    ensures
        a.spec_name() == b.spec_name(),
        a.spec_description() == b.spec_description(),
        forall|c: PocConfigView| #[trigger] a.spec_verify_request(c) == b.spec_verify_request(c),
        forall|c: PocConfigView, o: ProbeOutcomeView|
            #[trigger] a.spec_verify_conclude(c, o) == b.spec_verify_conclude(c, o),
        forall|c: PocConfigView| #[trigger] a.spec_exploit_request(c) == b.spec_exploit_request(c),
        forall|c: PocConfigView, o: ProbeOutcomeView|
            #[trigger] a.spec_exploit_conclude(c, o) == b.spec_exploit_conclude(c, o),
{
    match (a, b) {
        (RegisteredPoc::Example(x), RegisteredPoc::Example(y)) => {
            assert(x.info@.name == y.info@.name);
        },
        (RegisteredPoc::Redis(x), RegisteredPoc::Redis(y)) => {
            assert(x.info@.name == y.info@.name);
        },
        _ => {},
    }
}

} // verus!
