//! The licensed feature and tier context that gates optional capabilities.

use vstd::prelude::*;
use vstd::string::*;

verus! {

/// Name of the environment variable that may hold the license document.
pub const LICENSE_VAR: &'static str = "DDUI_LICENSE";

/// Name of the environment variable that may name the license file.
pub const LICENSE_PATH_VAR: &'static str = "DDUI_LICENSE_PATH";

/// Where the license file is looked for when nothing else is configured.
pub const DEFAULT_LICENSE_PATH: &'static str = "/run/secrets/ddui_license";

/// The toggles of a license.
#[derive(Clone, Copy, Debug, PartialEq, Eq, Structural)]
pub struct Features {
    /// Runs may be started.
    pub ci_api: bool,
    pub wizards: bool,
    pub history_days: u32,
}

/// What a license grants. A value is read-only for as long as a request
/// lasts: nothing in this crate changes one.
#[derive(Debug)]
pub struct Entitlements {
    /// Name of the tier.
    pub edition: String,
    pub max_hosts: Option<usize>,
    pub demo_stacks: Option<usize>,
    pub features: Features,
    pub org: Option<String>,
}

/// What a license grants, as a mathematical value.
pub struct EntitlementsView {
    pub edition: Seq<char>,
    pub max_hosts: Option<usize>,
    pub demo_stacks: Option<usize>,
    pub features: Features,
    pub org: Option<Seq<char>>,
}

impl View for Entitlements {
    type V = EntitlementsView;

    open spec fn view(&self) -> EntitlementsView {
        EntitlementsView {
            edition: self.edition@,
            max_hosts: self.max_hosts,
            demo_stacks: self.demo_stacks,
            features: self.features,
            org: match self.org {
                Some(o) => Some(o@),
                None => None,
            },
        }
    }
}

/// The tier that applies when no license is found: Community, 15 hosts,
/// 3 demo stacks, runs and wizards enabled, 30 days of history, no
/// organisation.
pub open spec fn community() -> EntitlementsView {
    EntitlementsView {
        edition: "Community"@,
        max_hosts: Some(15usize),
        demo_stacks: Some(3usize),
        features: Features { ci_api: true, wizards: true, history_days: 30 },
        org: None,
    }
}

/// What `load` settles on: the license from the environment where it was
/// given and understood, else the one from the file, else the Community tier.
pub open spec fn resolved(from_env: Option<Entitlements>, from_file: Option<Entitlements>) -> EntitlementsView {
    match from_env {
        Some(e) => e@,
        None => match from_file {
            Some(f) => f@,
            None => community(),
        },
    }
}

impl Clone for Entitlements {
    fn clone(&self) -> (r: Self)
        ensures
            r == *self,
    {
        Entitlements {
            edition: self.edition.clone(),
            max_hosts: self.max_hosts,
            demo_stacks: self.demo_stacks,
            features: self.features,
            org: match &self.org {
                Some(o) => Some(o.clone()),
                None => None,
            },
        }
    }
}

impl Default for Entitlements {
    /// The Community tier.
    fn default() -> (r: Self)
        ensures
            r@ == community(),
    {
        Entitlements {
            edition: String::from_str("Community"),
            max_hosts: Some(15),
            demo_stacks: Some(3),
            features: Features { ci_api: true, wizards: true, history_days: 30 },
            org: None,
        }
    }
}

impl Entitlements {
    /// Settles the entitlements of the process. `from_env` is the license
    /// found in the environment, `from_file` the one found in the license
    /// file; each is `None` where nothing was there or it could not be
    /// understood. The environment wins over the file, and where both are
    /// missing the Community tier applies: a missing license never gives more
    /// than that.
    pub fn load(from_env: Option<Entitlements>, from_file: Option<Entitlements>) -> (r: Entitlements)
        ensures
            r@ == resolved(from_env, from_file),
            from_env matches Some(e) ==> r == e,
            from_env is None ==> (from_file matches Some(f) ==> r == f),
    {
        match from_env {
            Some(e) => e,
            None => match from_file {
                Some(f) => f,
                None => Entitlements::default(),
            },
        }
    }

    /// Whether this license allows runs to be started.
    pub fn grants_runs(&self) -> (r: bool)
        ensures
            r == self.features.ci_api,
    {
        self.features.ci_api
    }
}

} // verus!
