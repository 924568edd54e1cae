//! The registry of runs: the host holds runs by handle and nothing else.

use std::collections::HashMap;
use vstd::prelude::*;
use crate::step_api::{ActiveRun, RunModel};

verus! {

broadcast use vstd::std_specs::hash::group_hash_axioms;

/// Owns every run of the host, keyed by handle. Handles start at one.
pub struct RunManager {
    pub next_handle: u32,
    pub runs: HashMap<u32, ActiveRun>,
}

/// The handle given out after `last`: the next number, saturating.
pub open spec fn handle_after(last: u32) -> u32 {
    if last == u32::MAX {
        u32::MAX
    } else {
        (last + 1) as u32
    }
}

/// Two registries hold the same handles and the same runs, except maybe the run of `handle`.
pub open spec fn same_but(before: Map<u32, ActiveRun>, after: Map<u32, ActiveRun>, handle: u32)
    -> bool {
    &&& after.dom() == before.dom()
    &&& forall|h: u32| h != handle && before.contains_key(h) ==> #[trigger] after[h] == before[h]
}

impl RunManager {
    /// Every run of the registry is well formed.
    pub open spec fn wf(&self) -> bool {
        forall|h: u32| self.runs@.contains_key(h) ==> (#[trigger] self.runs@[h]).wf()
    }

    /// An empty registry.
    pub fn new() -> (m: RunManager)
        ensures
            m.next_handle == 0,
            m.runs@ == Map::<u32, ActiveRun>::empty(),
            m.wf(),
    {
        RunManager { next_handle: 0, runs: HashMap::new() }
    }

    /// Creates a run and returns its handle. A handle that was given out
    /// before (only the last one, once handles are used up) gets the new run.
    pub fn create_run(&mut self, seed: u32, max_nodes: u32) -> (handle: u32)
        requires
            old(self).wf(),
        ensures
            handle == handle_after(old(self).next_handle),
            handle >= 1,
            final(self).next_handle == handle,
            final(self).runs@.contains_key(handle),
            final(self).runs@[handle]@ == RunModel::initial(seed as u64, max_nodes),
            final(self).runs@.remove(handle) == old(self).runs@.remove(handle),
            final(self).wf(),
    {
        let handle: u32 = if self.next_handle == u32::MAX {
            u32::MAX
        } else {
            self.next_handle + 1
        };
        self.next_handle = handle;
        let run = ActiveRun::new(seed as u64, max_nodes);
        self.runs.insert(handle, run);
        assert(self.runs@.remove(handle) =~= old(self).runs@.remove(handle));
        handle
    }

    /// Drops the run of a handle, if there is one.
    pub fn destroy_run(&mut self, handle: u32)
        requires
            old(self).wf(),
        ensures
            final(self).runs@ == old(self).runs@.remove(handle),
            final(self).next_handle == old(self).next_handle,
            final(self).wf(),
    {
        self.runs.remove(&handle);
    }

    /// Puts the run of a handle back into its initial state. Returns whether
    /// the handle names a run.
    pub fn reset_run(&mut self, handle: u32) -> (found: bool)
        requires
            old(self).wf(),
        ensures
            found == old(self).runs@.contains_key(handle),
            found ==> same_but(old(self).runs@, final(self).runs@, handle) && final(self).runs@[handle]@
                == RunModel::initial(
                old(self).runs@[handle].seed,
                old(self).runs@[handle].max_nodes,
            ),
            !found ==> final(self).runs@ == old(self).runs@,
            final(self).next_handle == old(self).next_handle,
            final(self).wf(),
    {
        match self.runs.remove(&handle) {
            Some(run) => {
                let mut run = run;
                run.reset();
                self.runs.insert(handle, run);
                assert(self.runs@.dom() =~= old(self).runs@.dom());
                true
            },
            None => {
                assert(self.runs@ =~= old(self).runs@);
                false
            },
        }
    }
}

} // verus!
