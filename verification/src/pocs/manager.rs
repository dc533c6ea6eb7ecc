//! The plugin catalogue: a fixed listing of the known checks, name lookup
//! against a registry that is never populated through this path, and keyword
//! search over the listing.

use vstd::prelude::*;
use vstd::string::*;
use crate::pocs::RegisteredPoc;
use crate::text::{contains_seq, contains_str};

verus! {

/// The manager's registry. Nothing is ever registered through this path, so
/// every lookup misses; the catalogue names are served from a fixed list.
pub struct PocRegistry {}

impl PocRegistry {
    pub fn new() -> (r: Self)
        ensures
            r == (PocRegistry {}),
    {
        PocRegistry {}
    }

    /// Looks up a plugin by name; as no plugin is ever registered here, the
    /// lookup always misses.
    pub fn get(&self, _name: &str) -> (r: Option<RegisteredPoc>)
        ensures
            r is None,
    {
        None
    }

    /// The fixed catalogue names.
    pub fn list(&self) -> (r: Vec<String>)
        ensures
            r.deep_view() == seq!["example"@, "redis"@],
    {
        let mut r: Vec<String> = Vec::new();
        r.push(("example").to_owned());
        r.push(("redis").to_owned());
        proof {
            assert(r.deep_view() =~= seq!["example"@, "redis"@]);
        }
        r
    }
}

/// One row of the plugin catalogue.
#[derive(Debug)]
pub struct PocInfo {
    pub name: String,
    pub vuln_type: String,
    pub description: String,
}

/// Ghost image of a `PocInfo`.
#[verifier::ext_equal]
pub ghost struct PocInfoView {
    pub name: Seq<char>,
    pub vuln_type: Seq<char>,
    pub description: Seq<char>,
}

impl View for PocInfo {
    type V = PocInfoView;

    open spec fn view(&self) -> PocInfoView {
        PocInfoView {
            name: self.name@,
            vuln_type: self.vuln_type@,
            description: self.description@,
        }
    }
}

impl DeepView for PocInfo {
    type V = PocInfoView;

    open spec fn deep_view(&self) -> PocInfoView {
        self.view()
    }
}

/// One catalogue row: the type and description columns are placeholders.
pub open spec fn catalogue_row(name: Seq<char>) -> PocInfoView {
    PocInfoView { name, vuln_type: "未知"@, description: "暂无描述"@ }
}

/// The whole catalogue, in listing order.
pub open spec fn catalogue() -> Seq<PocInfoView> {
    seq![catalogue_row("example"@), catalogue_row("redis"@)]
}

/// The catalogue rows whose name carries `kw`, in listing order.
pub open spec fn catalogue_matching(s: Seq<PocInfoView>, kw: Seq<char>) -> Seq<PocInfoView>
    decreases s.len()
{
    if s.len() == 0 {
        Seq::empty()
    } else {
        catalogue_matching(s.drop_last(), kw) + (if contains_seq(s.last().name, kw) {
            seq![s.last()]
        } else {
            Seq::empty()
        })
    }
}

/// Serves the plugin catalogue.
pub struct PocManager {
    pub registry: PocRegistry,
}

impl PocManager {
    pub fn new() -> (r: Self)
        ensures
            r == (PocManager { registry: PocRegistry {} }),
    {
        PocManager { registry: PocRegistry::new() }
    }

    /// Fetches a plugin by name; since the manager's registry is never
    /// populated, this always reports the plugin as missing.
    pub fn get_poc(&self, name: &str) -> (r: Result<RegisteredPoc, String>)
        ensures
            r matches Err(m) && m@ == "POC "@ + name@ + " not found"@,
    {
        match self.registry.get(name) {
            Some(p) => Ok(p),
            None => {
                let mut m = ("POC ").to_owned();
                m.append(name);
                m.append(" not found");
                Err(m)
            },
        }
    }

    /// The catalogue rows, one per known plugin name.
    pub fn list(&self) -> (r: Vec<PocInfo>)
        ensures
            r.deep_view() =~= catalogue(),
    {
        let names = self.registry.list();
        let mut r: Vec<PocInfo> = Vec::new();
        let mut i: usize = 0;
        proof {
            assert(names.deep_view().len() == names@.len());
        }
        while i < names.len()
            invariant
                names.deep_view() == seq!["example"@, "redis"@],
                names@.len() == 2,
                i <= 2,
                r@.len() == i,
                forall|k: int| 0 <= k < i ==> #[trigger] r@[k]@ == catalogue_row(names@[k]@),
            decreases names@.len() - i,
        {
            proof {
                assert(names.deep_view()[i as int] == names@[i as int]@);
            }
            r.push(
                PocInfo {
                    name: names[i].clone(),
                    vuln_type: ("未知").to_owned(),
                    description: ("暂无描述").to_owned(),
                },
            );
            i += 1;
        }
        proof {
            assert(names.deep_view()[0] == names@[0]@);
            assert(names.deep_view()[1] == names@[1]@);
            assert(r.deep_view() =~= catalogue());
        }
        r
    }

    /// The catalogue rows whose name carries the keyword, in listing order.
    pub fn search(&self, keyword: &str) -> (r: Vec<PocInfo>)
        ensures
            r.deep_view() =~= catalogue_matching(catalogue(), keyword@),
    {
        let all = self.list();
        let mut r: Vec<PocInfo> = Vec::new();
        let mut i: usize = 0;
        proof {
            assert(catalogue().take(0) =~= Seq::<PocInfoView>::empty());
        }
        while i < all.len()
            invariant
                all.deep_view() =~= catalogue(),
                all@.len() == catalogue().len(),
                i <= all@.len(),
                r.deep_view() =~= catalogue_matching(catalogue().take(i as int), keyword@),
            decreases all@.len() - i,
        {
            proof {
                assert(all.deep_view()[i as int] == all@[i as int]@);
                assert(catalogue().take(i as int + 1).drop_last() =~= catalogue().take(i as int));
                assert(catalogue().take(i as int + 1).last() == catalogue()[i as int]);
            }
            if contains_str(all[i].name.as_str(), keyword) {
                r.push(
                    PocInfo {
                        name: all[i].name.clone(),
                        vuln_type: all[i].vuln_type.clone(),
                        description: all[i].description.clone(),
                    },
                );
            }
            i += 1;
        }
        proof {
            assert(catalogue().take(catalogue().len() as int) =~= catalogue());
        }
        r
    }
}

} // verus!
