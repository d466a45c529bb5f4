//! The display loop's decision state: what the last poll found,
//! whether a download runs, and whether client and loader are ready.
//! The graphical shell around the library reads and redraws this
//! state; the decisions themselves are made here.

use vstd::prelude::*;
use crate::locator::{
    agent_flag_spec, fetch_lunar_client, home_path_spec, is_target_exe, rewrite_spec, seq_views,
    LunarProcess,
};

verus! {

/// The state behind the status display.  `lunar_weave_ready` holds
/// whether the client was found and whether the loader archive is in
/// place, in that order.
pub struct App {
    pub lunar_client: Option<LunarProcess>,
    pub weaver_path: String,
    pub downloading: bool,
    pub lunar_weave_ready: (bool, bool),
}

impl App {
    /// Fresh state for a loader path: polls the process table once;
    /// no download runs and nothing is ready until the first refresh.
    pub fn new(weaver_path: &str) -> (a: App)
        ensures
            a.weaver_path@ == weaver_path@,
            a.downloading == false,
            a.lunar_weave_ready == (false, false),
            match a.lunar_client {
                Some(p) => is_target_exe(p.exe@) && p.home_path@ == home_path_spec(p.exe@)
                    && exists|orig: Seq<Seq<char>>|
                    seq_views(p.launch_cmd_modified@) == rewrite_spec(orig, weaver_path@)
                        && p.weave_installed == orig.contains(agent_flag_spec(weaver_path@)),
                None => true,
            },
    {
        let lunar_client = fetch_lunar_client(weaver_path);
        App {
            lunar_client,
            weaver_path: weaver_path.to_owned(),
            downloading: false,
            lunar_weave_ready: (false, false),
        }
    }

    /// Whether a fresh poll found the client and the loader archive
    /// is in place.
    pub fn refresh_status(&mut self, weave_ready: bool)
        ensures
            final(self).lunar_weave_ready == (old(self).lunar_client is Some, weave_ready),
            final(self).lunar_client == old(self).lunar_client,
            final(self).weaver_path == old(self).weaver_path,
            final(self).downloading == old(self).downloading,
    {
        let lunar_ready = self.lunar_client.is_some();
        self.lunar_weave_ready = (lunar_ready, weave_ready);
    }

    /// The load action is owed exactly when both sides are ready and
    /// the located client does not already carry the agent.
    pub fn should_launch(&self) -> (r: bool)
        ensures
            r == (self.lunar_weave_ready.0 && self.lunar_weave_ready.1 && match self
                .lunar_client {
                Some(p) => !p.weave_installed,
                None => false,
            }),
    {
        self.lunar_weave_ready.0 && self.lunar_weave_ready.1 && match &self.lunar_client {
            Some(p) => !p.weave_installed,
            None => false,
        }
    }
}

} // verus!
