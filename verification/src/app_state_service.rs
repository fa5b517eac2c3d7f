//! Reading and writing the application state (current space, view
//! preferences and the memory of the interactive view).

use vstd::prelude::*;
use crate::error::AppError;
use crate::maintenance::state_write;
use crate::model::AppState;
use crate::repository::Repository;

verus! {

pub struct AppStateService {}

impl AppStateService {
    pub fn new() -> (r: Self) {
        AppStateService {}
    }

    pub fn load(&self, repo: &Repository) -> (r: Result<AppState, AppError>)
        ensures
            r matches Ok(s) && s@ == repo@.state,
    {
        Ok(repo.load_state())
    }

    pub fn save(&self, repo: &mut Repository, state: &AppState) -> (r: Result<(), AppError>)
        requires
            old(repo).wf(),
        ensures
            r is Ok,
            final(repo).wf(),
            final(repo)@ == state_write(old(repo)@, state@),
    {
        repo.save_state(state);
        Ok(())
    }

    /// Loads the state, hands it to `mutator`, saves what comes back and
    /// returns it.
    pub fn update<F: FnOnce(AppState) -> AppState>(&self, repo: &mut Repository, mutator: F) -> (r: Result<AppState, AppError>)
        requires
            old(repo).wf(),
            forall|s: AppState| s@ == old(repo)@.state ==> mutator.requires((s,)),
        ensures
            final(repo).wf(),
            r matches Ok(s2) && (exists|s1: AppState| s1@ == old(repo)@.state && #[trigger] mutator.ensures((s1,), s2))
                && final(repo)@ == state_write(old(repo)@, s2@),
    {
        let state = repo.load_state();
        let ghost s1 = state;
        let next = mutator(state);
        repo.save_state(&next);
        assert(mutator.ensures((s1,), next));
        Ok(next)
    }
}


/// What a save writes is what a later load gives back.
pub proof fn law_saved_state_loads_back(repo: crate::repository::RepoView, st: crate::model::AppStateView)
    ensures
        state_write(repo, st).state == st,
{
}

/// An update followed by a load gives back exactly the state the update
/// returned: the stored state with the mutator's changes and nothing else.
/// `before` and `updated` are what `update` starts from and returns, `after`
/// what it leaves stored; `loaded` is what `load` then returns.
pub proof fn law_load_after_update(
    before: crate::repository::RepoView,
    updated: AppState,
    after: crate::repository::RepoView,
    loaded: AppState,
)
    requires
        after == state_write(before, updated@),
        loaded@ == after.state,
    ensures
        loaded@ == updated@,
        after.spaces == before.spaces,
        after.records == before.records,
{
}

} // verus!
