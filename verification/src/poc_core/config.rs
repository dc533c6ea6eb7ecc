//! Layered run configuration: plain argument values, the file-borne
//! configuration shape, and the precedence rules that merge them. Reading
//! argument vectors and configuration files is the embedding application's
//! work; the merging itself is verified.

use vstd::prelude::*;
use vstd::string::*;
use crate::poc_core::clone_headers;

verus! {

/// The global command-line options, as plain values.
#[derive(Debug)]
pub struct Args {
    pub target: Option<String>,
    pub timeout: u64,
    pub verify: bool,
    pub exploit: bool,
    pub poc: Option<String>,
    pub config: Option<String>,
    pub verbose: bool,
}

/// A full run configuration: the fields of a plugin
/// invocation are joined by the chosen plugin name and a plugin list.
pub struct PocConfig {
    pub target: Option<String>,
    pub timeout: u64,
    pub headers: Vec<(String, String)>,
    pub verify: bool,
    pub exploit: bool,
    pub poc_name: Option<String>,
    pub plugins: Vec<String>,
}

/// Ghost image of a run configuration.
#[verifier::ext_equal]
pub ghost struct RunConfigView {
    pub target: Option<Seq<char>>,
    pub timeout: u64,
    pub headers: Seq<(Seq<char>, Seq<char>)>,
    pub verify: bool,
    pub exploit: bool,
    pub poc_name: Option<Seq<char>>,
    pub plugins: Seq<Seq<char>>,
}

impl View for PocConfig {
    type V = RunConfigView;

    open spec fn view(&self) -> RunConfigView {
        RunConfigView {
            target: match &self.target {
                Some(t) => Some(t@),
                None => None,
            },
            timeout: self.timeout,
            headers: self.headers@.map_values(|p: (String, String)| (p.0@, p.1@)),
            verify: self.verify,
            exploit: self.exploit,
            poc_name: match &self.poc_name {
                Some(p) => Some(p@),
                None => None,
            },
            plugins: self.plugins.deep_view(),
        }
    }
}

impl Default for PocConfig {
    /// The lowest-precedence configuration: everything unset or off.
    fn default() -> (r: Self)
        ensures
            r@ == (RunConfigView {
                target: None,
                timeout: 0,
                headers: Seq::<(Seq<char>, Seq<char>)>::empty(),
                verify: false,
                exploit: false,
                poc_name: None,
                plugins: Seq::<Seq<char>>::empty(),
            }),
    {
        let r = PocConfig {
            target: None,
            timeout: 0,
            headers: Vec::new(),
            verify: false,
            exploit: false,
            poc_name: None,
            plugins: Vec::new(),
        };
        proof {
            assert(r@ =~= (RunConfigView {
                target: None,
                timeout: 0,
                headers: Seq::<(Seq<char>, Seq<char>)>::empty(),
                verify: false,
                exploit: false,
                poc_name: None,
                plugins: Seq::<Seq<char>>::empty(),
            }));
        }
        r
    }
}

/// What the merge of command-line arguments into a configuration yields:
/// each given argument overrides, a zero timeout and unset flags leave the
/// configuration alone.
pub open spec fn merged_with_args(c: RunConfigView, target: Option<Seq<char>>, timeout: u64,
    verify: bool, exploit: bool, poc: Option<Seq<char>>) -> RunConfigView {
    RunConfigView {
        target: if target is Some {
            target
        } else {
            c.target
        },
        timeout: if timeout > 0 {
            timeout
        } else {
            c.timeout
        },
        verify: c.verify || verify,
        exploit: c.exploit || exploit,
        poc_name: if poc is Some {
            poc
        } else {
            c.poc_name
        },
        ..c
    }
}

impl PocConfig {
    /// Applies the global command-line arguments on top of this
    /// configuration: a given target, positive timeout, set mode flag or
    /// given plugin name wins over what is here.
    pub fn merge_with_args(&mut self, args: &Args)
        ensures
            final(self)@ == merged_with_args(
                old(self)@,
                match &args.target {
                    Some(t) => Some(t@),
                    None => None,
                },
                args.timeout,
                args.verify,
                args.exploit,
                match &args.poc {
                    Some(p) => Some(p@),
                    None => None,
                },
            ),
    {
        let ghost pre = self@;
        if let Some(target) = &args.target {
            self.target = Some(target.clone());
        }
        if args.timeout > 0 {
            self.timeout = args.timeout;
        }
        if args.verify {
            self.verify = true;
        }
        if args.exploit {
            self.exploit = true;
        }
        if let Some(poc) = &args.poc {
            self.poc_name = Some(poc.clone());
        }
        proof {
            assert(self@ =~= merged_with_args(
                pre,
                match &args.target {
                    Some(t) => Some(t@),
                    None => None,
                },
                args.timeout,
                args.verify,
                args.exploit,
                match &args.poc {
                    Some(p) => Some(p@),
                    None => None,
                },
            ));
        }
    }
}

/// The optional fields a configuration file may carry.
pub struct YamlConfig {
    pub target: Option<String>,
    pub timeout: Option<u64>,
    pub headers: Option<Vec<(String, String)>>,
    pub verify: Option<bool>,
    pub exploit: Option<bool>,
    pub poc_name: Option<String>,
    pub plugins: Option<Vec<String>>,
}

/// What a file-borne configuration resolves to: absent fields fall back to a
/// 30-second timeout, empty headers and unset flags, and a non-empty plugin
/// list clears the single plugin name.
pub open spec fn from_yaml_spec(y: YamlConfig) -> RunConfigView {
    let plugins = match y.plugins {
        Some(p) => p.deep_view(),
        None => Seq::<Seq<char>>::empty(),
    };
    RunConfigView {
        target: match y.target {
            Some(t) => Some(t@),
            None => None,
        },
        timeout: match y.timeout {
            Some(t) => t,
            None => 30,
        },
        headers: match y.headers {
            Some(h) => h@.map_values(|p: (String, String)| (p.0@, p.1@)),
            None => Seq::empty(),
        },
        verify: match y.verify {
            Some(v) => v,
            None => false,
        },
        exploit: match y.exploit {
            Some(e) => e,
            None => false,
        },
        poc_name: if plugins.len() > 0 {
            None
        } else {
            match y.poc_name {
                Some(p) => Some(p@),
                None => None,
            }
        },
        plugins,
    }
}

/// Applies precedence rules to raw configuration data.
pub struct ConfigManager;

impl ConfigManager {
    /// Turns a file-borne configuration into a run configuration, filling
    /// the documented defaults; a plugin list takes precedence over a single
    /// plugin name.
    pub fn from_yaml(y: YamlConfig) -> (r: PocConfig)
        ensures
            r@ == from_yaml_spec(y),
    {
        let YamlConfig { target, timeout, headers, verify, exploit, poc_name, plugins } = y;
        let plugin_list: Vec<String> = match plugins {
            Some(p) => p,
            None => Vec::new(),
        };
        let named: Option<String> = if plugin_list.len() > 0 {
            None
        } else {
            poc_name
        };
        let r = PocConfig {
            target,
            timeout: match timeout {
                Some(t) => t,
                None => 30,
            },
            headers: match headers {
                Some(h) => h,
                None => Vec::new(),
            },
            verify: match verify {
                Some(v) => v,
                None => false,
            },
            exploit: match exploit {
                Some(e) => e,
                None => false,
            },
            poc_name: named,
            plugins: plugin_list,
        };
        proof {
            assert(r@ =~= from_yaml_spec(y));
        }
        r
    }
}

} // verus!
