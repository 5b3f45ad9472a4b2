//! The request-level operations of the dashboard and the state they share.

use vstd::prelude::*;
use crate::config::AppConfig;
use crate::entitlements::Entitlements;

pub mod ci_run;
pub mod health;
pub mod inventory;

verus! {

/// What every request handler is given: the settings and the entitlements of
/// the process. Both are fixed when the process starts.
#[derive(Debug)]
pub struct AppState {
    pub cfg: AppConfig,
    pub ents: Entitlements,
}

impl Clone for AppState {
    fn clone(&self) -> (r: Self)
        ensures
            r == *self,
    {
        AppState { cfg: self.cfg.clone(), ents: self.ents.clone() }
    }
}

impl AppState {
    /// Puts the settings and the entitlements together.
    pub fn new(cfg: AppConfig, ents: Entitlements) -> (state: Self)
        ensures
            state.cfg == cfg,
            state.ents == ents,
    {
        Self { cfg, ents }
    }

    /// A copy of the settings, for a handler that needs only those.
    pub fn config(&self) -> (cfg: AppConfig)
        ensures
            cfg == self.cfg,
    {
        self.cfg.clone()
    }

    /// A copy of the entitlements, for a handler that needs only those.
    pub fn entitlements(&self) -> (ents: Entitlements)
        ensures
            ents == self.ents,
    {
        self.ents.clone()
    }
}

} // verus!
