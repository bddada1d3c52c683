//! The laws the decision core obeys, stated over the spec-level decision
//! functions and proved once for every input.
use crate::git::{
    candidates_from, classify_rest_from, deleted_from, lemma_candidates_avoid,
    spec_candidates, spec_classify, spec_deleted, spec_sync, ObsModel, SyncObsModel,
};
use crate::status::{ClassifyAction, GitError, StatusModel};
use crate::text::{count_value, fields, trimmed};
use vstd::prelude::*;

verus! {

/// A branch whose two-sided count reads zero ahead and zero behind is
/// classified `UpToDate`, and the classification mutates no ref.
pub proof fn law_in_sync_is_up_to_date(o: ObsModel)
    requires
        o.has_remote_ref,
        o.counts_output is Some,
        fields(o.counts_output->Some_0).len() == 2,
        count_value(fields(o.counts_output->Some_0)[0]) == 0,
        count_value(fields(o.counts_output->Some_0)[1]) == 0,
    ensures
        spec_classify(o) == Ok::<(StatusModel, ClassifyAction), GitError>(
            (StatusModel::UpToDate, ClassifyAction::Nothing),
        ),
{
}

/// A branch with local commits the remote lacks is classified `Diverged`,
/// whatever the behind count says, and the classification mutates no ref.
pub proof fn law_ahead_is_diverged(o: ObsModel)
    requires
        o.has_remote_ref,
        o.counts_output is Some,
        fields(o.counts_output->Some_0).len() == 2,
        count_value(fields(o.counts_output->Some_0)[0]) > 0,
    ensures
        spec_classify(o) == Ok::<(StatusModel, ClassifyAction), GitError>(
            (StatusModel::Diverged(o.name), ClassifyAction::Nothing),
        ),
{
}

/// A branch that is only behind, with its remote-tracking ref confirmed
/// and the two tips read, is advanced: its status is `Updated` and its
/// local ref must move to the remote tip.
pub proof fn law_behind_advances(o: ObsModel)
    requires
        o.has_remote_ref,
        o.counts_output is Some,
        fields(o.counts_output->Some_0).len() == 2,
        count_value(fields(o.counts_output->Some_0)[0]) == 0,
        count_value(fields(o.counts_output->Some_0)[1]) > 0,
        o.remote_ref_confirmed,
        o.local_tip is Some,
        o.remote_tip is Some,
        trimmed(o.local_tip->Some_0) != trimmed(o.remote_tip->Some_0),
    ensures
        spec_classify(o) == Ok::<(StatusModel, ClassifyAction), GitError>(
            (StatusModel::Updated(o.name), ClassifyAction::AdvanceToRemote),
        ),
{
}

/// Advancing is idempotent: where the two tips already agree, as they do
/// right after an advance, classification reports `UpToDate` and moves
/// nothing, even while the count still reads behind.
pub proof fn law_advance_is_idempotent(o: ObsModel)
    requires
        o.has_remote_ref,
        o.counts_output is Some,
        fields(o.counts_output->Some_0).len() == 2,
        count_value(fields(o.counts_output->Some_0)[0]) == 0,
        count_value(fields(o.counts_output->Some_0)[1]) > 0,
        o.remote_ref_confirmed,
        o.local_tip is Some,
        o.remote_tip is Some,
        trimmed(o.local_tip->Some_0) == trimmed(o.remote_tip->Some_0),
    ensures
        spec_classify(o) == Ok::<(StatusModel, ClassifyAction), GitError>(
            (StatusModel::UpToDate, ClassifyAction::Nothing),
        ),
{
}

/// A branch with no remote-tracking ref is classified `LocalOnly`, and the
/// classification mutates no ref.
pub proof fn law_never_pushed_is_local_only(o: ObsModel)
    requires
        !o.has_remote_ref,
    ensures
        spec_classify(o) == Ok::<(StatusModel, ClassifyAction), GitError>(
            (StatusModel::LocalOnly(o.name), ClassifyAction::Nothing),
        ),
{
}

/// A dirty working tree short-circuits the sync run: its whole outcome is
/// the single status `Modified` for the current branch, and no ref of any
/// branch is advanced.
pub proof fn law_dirty_tree_short_circuits(o: SyncObsModel)
    requires
        o.status_output.len() > 0,
    ensures
        spec_sync(o) == Ok::<(Seq<StatusModel>, Seq<Seq<char>>), GitError>(
            (seq![StatusModel::Modified(o.current_branch)], Seq::empty()),
        ),
{
}

/// With a clean tree and no remote configured, the sync run fails whole
/// with `NoRemoteConfigured`: it yields no status list at all.
pub proof fn law_no_remote_fails_sync(o: SyncObsModel)
    requires
        o.status_output.len() == 0,
        trimmed(o.remote_output).len() == 0,
    ensures
        spec_sync(o) == Err::<(Seq<StatusModel>, Seq<Seq<char>>), GitError>(
            GitError::NoRemoteConfigured,
        ),
{
}

/// Every branch the deletion outcomes keep in the deleted set came from
/// the candidate list, so a name absent from the candidates is never
/// reported deleted.
proof fn lemma_deleted_avoid(c: Seq<Seq<char>>, ok: Seq<bool>, i: int, name: Seq<char>)
    requires
        forall|j: int| 0 <= j < c.len() ==> c[j] != name,
    ensures
        forall|j: int|
            0 <= j < deleted_from(c, ok, i).len() ==> deleted_from(c, ok, i)[j] != name,
    decreases c.len() - i,
{
    if i < 0 || i >= c.len() {
    } else {
        lemma_deleted_avoid(c, ok, i + 1, name);
        let pre = if i < ok.len() && ok[i] {
            seq![c[i]]
        } else {
            Seq::<Seq<char>>::empty()
        };
        let whole = deleted_from(c, ok, i);
        assert(whole == pre + deleted_from(c, ok, i + 1));
        assert forall|j: int| 0 <= j < whole.len() implies whole[j] != name by {
            if j >= pre.len() {
                assert(whole[j] == deleted_from(c, ok, i + 1)[j - pre.len()]);
            }
        }
    }
}

/// Classification alone never decides `Merged`: deletion is the sweep's
/// decision, never the decision table's.
proof fn lemma_classified_never_merged(
    obs: Seq<ObsModel>,
    i: int,
    deleted: Seq<Seq<char>>,
    current: Seq<char>,
)
    ensures
        classify_rest_from(obs, i, deleted, current) matches Ok(rest) ==> forall|j: int|
            0 <= j < rest.0.len() ==> !(rest.0[j] is Merged),
    decreases obs.len() - i,
{
    if i < 0 || i >= obs.len() {
    } else {
        lemma_classified_never_merged(obs, i + 1, deleted, current);
        let o = obs[i];
        if o.name == current || deleted.contains(o.name) {
        } else {
            if let Ok(sa) = spec_classify(o) {
                assert(!(sa.0 is Merged));
                if let Ok(rest) = classify_rest_from(obs, i + 1, deleted, current) {
                    let whole = seq![sa.0] + rest.0;
                    assert forall|j: int| 0 <= j < whole.len() implies !(whole[j] is Merged) by {
                        if j >= 1 {
                            assert(whole[j] == rest.0[j - 1]);
                        }
                    }
                }
            }
        }
    }
}

/// A sync run that yields statuses at all reports `Merged` for none of
/// the protected names: the sweep's candidate filter drops them all.
proof fn lemma_sync_spares(o: SyncObsModel, name: Seq<char>)
    requires
        name == o.current_branch || name == o.default_branch || name == "main"@ || name
            == "master"@,
    ensures
        spec_sync(o) matches Ok(r) ==> forall|j: int|
            0 <= j < r.0.len() ==> r.0[j] != StatusModel::Merged(name),
{
    if o.status_output.len() > 0 {
    } else if trimmed(o.remote_output).len() == 0 {
    } else {
        let cands = spec_candidates(o.merged_output, o.default_branch, o.current_branch);
        let deleted = spec_deleted(cands, o.delete_ok);
        lemma_candidates_avoid(
            crate::text::split_lines(o.merged_output),
            0,
            o.default_branch,
            o.current_branch,
            name,
        );
        lemma_deleted_avoid(cands, o.delete_ok, 0, name);
        lemma_classified_never_merged(o.branch_obs, 0, deleted, o.current_branch);
        if let Ok(rest) = classify_rest_from(o.branch_obs, 0, deleted, o.current_branch) {
            let head = if o.current_has_upstream {
                seq![StatusModel::Updated(o.current_branch)]
            } else {
                Seq::<StatusModel>::empty()
            };
            let merged = deleted.map(|j: int, n: Seq<char>| StatusModel::Merged(n));
            let whole = head + merged + rest.0;
            assert forall|j: int|
                0 <= j < whole.len() implies whole[j] != StatusModel::Merged(name) by {
                if j < head.len() {
                } else if j < head.len() + merged.len() {
                    let k = j - head.len();
                    assert(whole[j] == merged[k]);
                    assert(merged[k] == StatusModel::Merged(deleted[k]));
                    assert(deleted[k] != name);
                } else {
                    let k = j - head.len() - merged.len();
                    assert(whole[j] == rest.0[k]);
                    assert(!(rest.0[k] is Merged));
                }
            }
        }
    }
}

/// The current branch is never deleted by the sweep: a sync run that
/// yields statuses at all reports `Merged` for it under no circumstances,
/// even where the current branch is fully merged into the default branch.
pub proof fn law_sweep_spares_current_branch(o: SyncObsModel)
    ensures
        spec_sync(o) matches Ok(r) ==> forall|j: int|
            0 <= j < r.0.len() ==> r.0[j] != StatusModel::Merged(o.current_branch),
{
    lemma_sync_spares(o, o.current_branch);
}

/// The default branch is never deleted by the sweep, whatever name it
/// resolved to, and a branch under a conventional default name is spared
/// as well.
pub proof fn law_sweep_spares_default_branch(o: SyncObsModel)
    ensures
        spec_sync(o) matches Ok(r) ==> forall|j: int|
            0 <= j < r.0.len()
                ==> r.0[j] != StatusModel::Merged(o.default_branch)
                && r.0[j] != StatusModel::Merged("main"@)
                && r.0[j] != StatusModel::Merged("master"@),
{
    lemma_sync_spares(o, o.default_branch);
    lemma_sync_spares(o, "main"@);
    lemma_sync_spares(o, "master"@);
}

} // verus!

