//! The decision core. [`GitManager`] turns raw version-control command
//! output and per-branch observations into parsed state, per-branch status
//! decisions and the ref mutations a sync run calls for. It runs no
//! command itself: the caller queries the repository, hands the answers in
//! as plain values, and carries the decided actions out.
use crate::status::{
    BranchInfo, BranchInfoModel, BranchStatus, ClassifyAction, GitError, StatusModel,
};
use crate::text::{
    count_value, fields, fields_str, has_prefix, parse_count, remove_all, remove_pat_from,
    split_lines, split_lines_str, str_eq, strip_prefix_str, trim_str, trimmed,
};
use vstd::prelude::*;

verus! {

/// The branch-status decision core. It is stateless: every method takes
/// the observations it needs as arguments and returns its decision.
pub struct GitManager;

/// The name a worktree mapping binds a path under, with that path: the
/// latest pair wins, as later records overwrite earlier ones.
pub open spec fn wt_lookup(m: Seq<(Seq<char>, Seq<char>)>, name: Seq<char>) -> Option<Seq<char>>
    decreases m.len(),
{
    if m.len() == 0 {
        None
    } else if m.last().0 == name {
        Some(m.last().1)
    } else {
        wt_lookup(m.drop_last(), name)
    }
}

/// The worktree pairs the porcelain listing yields from line `i` onward,
/// with `wt` the most recently seen worktree path and `br` the pending
/// branch name: a pair is emitted whenever both are filled, and the branch
/// slot is then cleared.
pub open spec fn wt_pairs_from(ls: Seq<Seq<char>>, i: int, wt: Seq<char>, br: Seq<char>) -> Seq<
    (Seq<char>, Seq<char>),
>
    decreases ls.len() - i,
{
    if i < 0 || i >= ls.len() {
        Seq::empty()
    } else {
        let l = ls[i];
        let wt2 = if has_prefix(l, "worktree "@) {
            l.skip("worktree "@.len() as int)
        } else {
            wt
        };
        let br2 = if !has_prefix(l, "worktree "@) && has_prefix(l, "branch "@) && has_prefix(
            l.skip("branch "@.len() as int),
            "refs/heads/"@,
        ) {
            l.skip("branch "@.len() as int).skip("refs/heads/"@.len() as int)
        } else {
            br
        };
        if wt2.len() > 0 && br2.len() > 0 {
            seq![(br2, wt2)] + wt_pairs_from(ls, i + 1, wt2, Seq::empty())
        } else {
            wt_pairs_from(ls, i + 1, wt2, br2)
        }
    }
}

/// The branch-to-path pairs of a worktree porcelain listing.
pub open spec fn spec_worktrees(raw: Seq<char>) -> Seq<(Seq<char>, Seq<char>)> {
    wt_pairs_from(split_lines(raw), 0, Seq::empty(), Seq::empty())
}

/// The local branches a ref listing yields from line `i` onward: each line
/// of exactly two fields whose first is not the current branch becomes a
/// branch named by the first field, at the tip named by the second,
/// annotated with its worktree path where the mapping has one.
pub open spec fn branch_list_from(
    ls: Seq<Seq<char>>,
    i: int,
    current: Seq<char>,
    wt: Seq<(Seq<char>, Seq<char>)>,
) -> Seq<BranchInfoModel>
    decreases ls.len() - i,
{
    if i < 0 || i >= ls.len() {
        Seq::empty()
    } else {
        let fs = fields(ls[i]);
        if fs.len() == 2 && fs[0] != current {
            seq![
                BranchInfoModel {
                    name: fs[0],
                    commit_id: fs[1],
                    worktree_path: wt_lookup(wt, fs[0]),
                },
            ] + branch_list_from(ls, i + 1, current, wt)
        } else {
            branch_list_from(ls, i + 1, current, wt)
        }
    }
}

/// The local branches of a ref listing, the current branch excluded.
pub open spec fn spec_local_branches(
    raw: Seq<char>,
    current: Seq<char>,
    wt: Seq<(Seq<char>, Seq<char>)>,
) -> Seq<BranchInfoModel> {
    branch_list_from(split_lines(raw), 0, current, wt)
}

/// The default branch decided from the symbolic head answer and the two
/// conventional-name probes.
pub open spec fn spec_default_branch(
    head: Option<Seq<char>>,
    has_main: bool,
    has_master: bool,
) -> Result<Seq<char>, GitError> {
    match head {
        Some(h) => if trimmed(h).len() > 0 {
            Ok(remove_pat_from(trimmed(h), "origin/"@, 0))
        } else {
            spec_default_probe(has_main, has_master)
        },
        None => spec_default_probe(has_main, has_master),
    }
}

/// The conventional-name fallback of the default-branch decision.
pub open spec fn spec_default_probe(has_main: bool, has_master: bool) -> Result<
    Seq<char>,
    GitError,
> {
    if has_main {
        Ok("main"@)
    } else if has_master {
        Ok("master"@)
    } else {
        Err(GitError::NoDefaultBranch)
    }
}

/// A `Result<String, _>` seen at the spec level.
pub open spec fn str_result_view(r: Result<String, GitError>) -> Result<Seq<char>, GitError> {
    match r {
        Ok(s) => Ok(s@),
        Err(e) => Err(e),
    }
}

/// Everything one classification decision reads about one branch, as the
/// caller observed it. Absent answers (`None`) are queries that failed.
pub struct BranchObservation {
    /// The branch under classification.
    pub name: String,
    /// Whether a remote-tracking ref for the branch exists.
    pub has_remote_ref: bool,
    /// The raw answer of the two-sided commit count between the branch and
    /// its remote-tracking ref.
    pub counts_output: Option<String>,
    /// Whether the remote-tracking ref could be confirmed present again at
    /// the moment an update would happen.
    pub remote_ref_confirmed: bool,
    /// The raw answer naming the local tip.
    pub local_tip: Option<String>,
    /// The raw answer naming the remote-tracking tip.
    pub remote_tip: Option<String>,
}

/// The spec-level picture of a [`BranchObservation`].
pub struct ObsModel {
    pub name: Seq<char>,
    pub has_remote_ref: bool,
    pub counts_output: Option<Seq<char>>,
    pub remote_ref_confirmed: bool,
    pub local_tip: Option<Seq<char>>,
    pub remote_tip: Option<Seq<char>>,
}

impl View for BranchObservation {
    type V = ObsModel;

    open spec fn view(&self) -> ObsModel {
        ObsModel {
            name: self.name@,
            has_remote_ref: self.has_remote_ref,
            counts_output: self.counts_output.deep_view(),
            remote_ref_confirmed: self.remote_ref_confirmed,
            local_tip: self.local_tip.deep_view(),
            remote_tip: self.remote_tip.deep_view(),
        }
    }
}

impl DeepView for BranchObservation {
    type V = ObsModel;

    open spec fn deep_view(&self) -> ObsModel {
        self.view()
    }
}

/// The status classification decides for a branch observed as `o`, with
/// the ref mutation it calls for; `Err` where a needed query failed.
///
/// The decision table: no remote-tracking ref is `LocalOnly`; a count
/// answer of any shape other than exactly two fields is `RemoteGone`;
/// ahead and behind both zero is `UpToDate`; ahead positive is `Diverged`
/// whatever behind says; behind positive alone advances the branch to the
/// remote tip (`Updated`), unless the remote ref could not be confirmed
/// (`RemoteGone`) or the tips already agree (`UpToDate`). Malformed count
/// fields read as zero. Only the `Updated` outcome mutates any ref.
pub open spec fn spec_classify(o: ObsModel) -> Result<(StatusModel, ClassifyAction), GitError> {
    if !o.has_remote_ref {
        Ok((StatusModel::LocalOnly(o.name), ClassifyAction::Nothing))
    } else {
        match o.counts_output {
            None => Err(GitError::QueryFailed),
            Some(raw) => {
                let fs = fields(raw);
                if fs.len() != 2 {
                    Ok((StatusModel::RemoteGone(o.name), ClassifyAction::Nothing))
                } else {
                    let ahead = count_value(fs[0]);
                    let behind = count_value(fs[1]);
                    if ahead == 0 && behind == 0 {
                        Ok((StatusModel::UpToDate, ClassifyAction::Nothing))
                    } else if ahead > 0 {
                        Ok((StatusModel::Diverged(o.name), ClassifyAction::Nothing))
                    } else if !o.remote_ref_confirmed {
                        Ok((StatusModel::RemoteGone(o.name), ClassifyAction::Nothing))
                    } else {
                        match (o.local_tip, o.remote_tip) {
                            (Some(lt), Some(rt)) => if trimmed(lt) != trimmed(rt) {
                                Ok((StatusModel::Updated(o.name), ClassifyAction::AdvanceToRemote))
                            } else {
                                Ok((StatusModel::UpToDate, ClassifyAction::Nothing))
                            },
                            _ => Err(GitError::QueryFailed),
                        }
                    }
                }
            },
        }
    }
}

/// A classification result seen at the spec level.
pub open spec fn classify_view(r: Result<(BranchStatus, ClassifyAction), GitError>) -> Result<
    (StatusModel, ClassifyAction),
    GitError,
> {
    match r {
        Ok(p) => Ok((p.0@, p.1)),
        Err(e) => Err(e),
    }
}

/// The sweep candidates a merged-branch listing yields from line `i`
/// onward: each trimmed non-blank line that names neither the default
/// branch, nor a conventional default name, nor the current branch, and
/// does not carry the current-branch marker.
pub open spec fn candidates_from(
    ls: Seq<Seq<char>>,
    i: int,
    default: Seq<char>,
    current: Seq<char>,
) -> Seq<Seq<char>>
    decreases ls.len() - i,
{
    if i < 0 || i >= ls.len() {
        Seq::empty()
    } else {
        let t = trimmed(ls[i]);
        let keep = t.len() > 0 && t != default && t != "master"@ && t != "main"@ && t != current
            && t[0] != '*';
        (if keep {
            seq![t]
        } else {
            Seq::empty()
        }) + candidates_from(ls, i + 1, default, current)
    }
}

/// The sweep candidates of a merged-branch listing.
pub open spec fn spec_candidates(raw: Seq<char>, default: Seq<char>, current: Seq<char>) -> Seq<
    Seq<char>,
> {
    candidates_from(split_lines(raw), 0, default, current)
}

/// The candidates actually deleted, in candidate order: candidate `i`
/// stays in the deleted set only where the caller's deletion attempt `i`
/// succeeded; a missing attempt counts as failed.
pub open spec fn deleted_from(c: Seq<Seq<char>>, ok: Seq<bool>, i: int) -> Seq<Seq<char>>
    decreases c.len() - i,
{
    if i < 0 || i >= c.len() {
        Seq::empty()
    } else {
        (if i < ok.len() && ok[i] {
            seq![c[i]]
        } else {
            Seq::empty()
        }) + deleted_from(c, ok, i + 1)
    }
}

/// The deleted subset of the sweep candidates.
pub open spec fn spec_deleted(c: Seq<Seq<char>>, ok: Seq<bool>) -> Seq<Seq<char>> {
    deleted_from(c, ok, 0)
}

/// The statuses and ref advances that classifying the observed branches
/// from position `i` onward yields, skipping the current branch and the
/// branches already deleted; the first failed classification fails the
/// whole pass.
pub open spec fn classify_rest_from(
    obs: Seq<ObsModel>,
    i: int,
    deleted: Seq<Seq<char>>,
    current: Seq<char>,
) -> Result<(Seq<StatusModel>, Seq<Seq<char>>), GitError>
    decreases obs.len() - i,
{
    if i < 0 || i >= obs.len() {
        Ok((Seq::empty(), Seq::empty()))
    } else {
        let o = obs[i];
        if o.name == current || deleted.contains(o.name) {
            classify_rest_from(obs, i + 1, deleted, current)
        } else {
            match spec_classify(o) {
                Err(e) => Err(e),
                Ok(sa) => match classify_rest_from(obs, i + 1, deleted, current) {
                    Err(e) => Err(e),
                    Ok(rest) => Ok(
                        (
                            seq![sa.0] + rest.0,
                            (if sa.1 is AdvanceToRemote {
                                seq![o.name]
                            } else {
                                Seq::empty()
                            }) + rest.1,
                        ),
                    ),
                },
            }
        }
    }
}

/// Everything one sync run observes, in the order the run makes its
/// observations. The deletion outcomes in `delete_ok` answer, attempt by
/// attempt, the sweep candidates decided from `merged_output`.
pub struct SyncObservations {
    /// The raw working-tree status answer; empty means clean.
    pub status_output: String,
    /// The current branch name, already parsed.
    pub current_branch: String,
    /// The raw remote listing; blank means no remote is configured.
    pub remote_output: String,
    /// Whether the current branch has an upstream, so that a
    /// fast-forward pull of it was attempted.
    pub current_has_upstream: bool,
    /// The default branch name, already decided.
    pub default_branch: String,
    /// The raw merged-branch listing against the default branch.
    pub merged_output: String,
    /// Success of each deletion attempt, aligned with the sweep
    /// candidates; missing entries count as failed attempts.
    pub delete_ok: Vec<bool>,
    /// One observation per local branch, the current branch excluded, in
    /// listing order.
    pub branch_obs: Vec<BranchObservation>,
}

/// The spec-level picture of [`SyncObservations`].
pub struct SyncObsModel {
    pub status_output: Seq<char>,
    pub current_branch: Seq<char>,
    pub remote_output: Seq<char>,
    pub current_has_upstream: bool,
    pub default_branch: Seq<char>,
    pub merged_output: Seq<char>,
    pub delete_ok: Seq<bool>,
    pub branch_obs: Seq<ObsModel>,
}

impl View for SyncObservations {
    type V = SyncObsModel;

    open spec fn view(&self) -> SyncObsModel {
        SyncObsModel {
            status_output: self.status_output@,
            current_branch: self.current_branch@,
            remote_output: self.remote_output@,
            current_has_upstream: self.current_has_upstream,
            default_branch: self.default_branch@,
            merged_output: self.merged_output@,
            delete_ok: self.delete_ok.deep_view(),
            branch_obs: self.branch_obs.deep_view(),
        }
    }
}

/// What one sync run decided: the statuses to display, in decision order,
/// and the branches whose local refs the caller must advance to their
/// remote-tracking tips.
pub struct SyncOutcome {
    pub statuses: Vec<BranchStatus>,
    pub advances: Vec<String>,
}

/// A sync result seen at the spec level.
pub open spec fn outcome_view(r: Result<SyncOutcome, GitError>) -> Result<
    (Seq<StatusModel>, Seq<Seq<char>>),
    GitError,
> {
    match r {
        Ok(o) => Ok((o.statuses.deep_view(), o.advances.deep_view())),
        Err(e) => Err(e),
    }
}

/// The outcome of one sync run over the observations `o`.
///
/// A dirty working tree short-circuits the run to the single status
/// `Modified` with no action. A blank remote listing fails the run. An
/// otherwise clean run reports, in order: `Updated` for the current branch
/// where its fast-forward pull was attempted; `Merged` per deleted sweep
/// candidate, in candidate order; then one status per remaining branch by
/// the classification decision table, with the refs to advance.
pub open spec fn spec_sync(o: SyncObsModel) -> Result<
    (Seq<StatusModel>, Seq<Seq<char>>),
    GitError,
> {
    if o.status_output.len() > 0 {
        Ok((seq![StatusModel::Modified(o.current_branch)], Seq::empty()))
    } else if trimmed(o.remote_output).len() == 0 {
        Err(GitError::NoRemoteConfigured)
    } else {
        let cands = spec_candidates(o.merged_output, o.default_branch, o.current_branch);
        let deleted = spec_deleted(cands, o.delete_ok);
        let head = if o.current_has_upstream {
            seq![StatusModel::Updated(o.current_branch)]
        } else {
            Seq::<StatusModel>::empty()
        };
        match classify_rest_from(o.branch_obs, 0, deleted, o.current_branch) {
            Err(e) => Err(e),
            Ok(rest) => Ok(
                (
                    head + deleted.map(|j: int, n: Seq<char>| StatusModel::Merged(n)) + rest.0,
                    rest.1,
                ),
            ),
        }
    }
}

/// Whether one of the strings is `name`.
fn vec_contains_str(v: &Vec<String>, name: &str) -> (r: bool)
    ensures
        r == v.deep_view().contains(name@),
{
    let mut k: usize = 0;
    while k < v.len()
        invariant
            0 <= k <= v.len(),
            v.deep_view().len() == v.len(),
            forall|j: int| 0 <= j < k ==> v.deep_view()[j] != name@,
        decreases v.len() - k,
    {
        proof {
            assert(v.deep_view()[k as int] == v@[k as int]@);
        }
        if str_eq(v[k].as_str(), name) {
            return true;
        }
        k += 1;
    }
    false
}

/// Finds the path mapped to `name`, the latest pair winning.
pub fn worktree_lookup(m: &Vec<(String, String)>, name: &str) -> (r: Option<String>)
    ensures
        r.deep_view() == wt_lookup(m.deep_view(), name@),
{
    let mut i: usize = m.len();
    proof {
        assert(m.deep_view().take(i as int) =~= m.deep_view());
    }
    while i > 0
        invariant
            i <= m.len(),
            m.deep_view().len() == m.len(),
            wt_lookup(m.deep_view(), name@) == wt_lookup(m.deep_view().take(i as int), name@),
        decreases i,
    {
        let ghost pre = m.deep_view().take(i as int);
        proof {
            assert(pre.last() == m.deep_view()[i - 1]);
            assert(pre.drop_last() =~= m.deep_view().take(i as int - 1));
        }
        if str_eq(m[i - 1].0.as_str(), name) {
            return Some(m[i - 1].1.clone());
        }
        i -= 1;
    }
    None
}

impl GitManager {
    /// Admits the caller to the decision core only inside a repository.
    /// `in_repository` is the outcome of the caller's repository probe.
    pub fn new(in_repository: bool) -> (r: Result<GitManager, GitError>)
        ensures
            in_repository <==> r is Ok,
            !in_repository ==> r == Result::<GitManager, GitError>::Err(GitError::NotARepository),
    {
        if in_repository {
            Ok(GitManager)
        } else {
            Err(GitError::NotARepository)
        }
    }

    /// Reads the current branch name out of the show-current answer: the
    /// answer with its surrounding whitespace removed.
    pub fn get_current_branch(&self, raw: &str) -> (r: String)
        ensures
            r@ == trimmed(raw@),
    {
        trim_str(raw)
    }

    /// Whether a status answer reports uncommitted changes: any output at
    /// all means the working tree is dirty.
    pub fn working_tree_dirty(&self, status_output: &str) -> (r: bool)
        ensures
            r == (status_output@.len() > 0),
    {
        status_output.unicode_len() > 0
    }

    /// Whether a remote listing names at least one remote.
    pub fn remote_configured(&self, remote_output: &str) -> (r: bool)
        ensures
            r == (trimmed(remote_output@).len() > 0),
    {
        let t = trim_str(remote_output);
        t.as_str().unicode_len() > 0
    }

    /// Decides the default branch. `head_ref_output` is the answer of the
    /// symbolic-head query, absent where that query failed; the two flags
    /// report whether a local branch of the conventional name exists. The
    /// symbolic answer wins when it is non-blank, its remote prefix
    /// removed; otherwise the probes decide, `main` before `master`.
    pub fn get_default_branch(
        &self,
        head_ref_output: Option<&str>,
        has_main: bool,
        has_master: bool,
    ) -> (r: Result<String, GitError>)
        ensures
            str_result_view(r) == spec_default_branch(
                head_ref_output.deep_view(),
                has_main,
                has_master,
            ),
    {
        match head_ref_output {
            Some(h) => {
                let t = trim_str(h);
                if t.as_str().unicode_len() > 0 {
                    proof {
                        reveal_strlit("origin/");
                    }
                    Ok(remove_all(t.as_str(), "origin/"))
                } else {
                    self.default_probe(has_main, has_master)
                }
            },
            None => self.default_probe(has_main, has_master),
        }
    }

    fn default_probe(&self, has_main: bool, has_master: bool) -> (r: Result<String, GitError>)
        ensures
            str_result_view(r) == spec_default_probe(has_main, has_master),
    {
        if has_main {
            Ok("main".to_owned())
        } else if has_master {
            Ok("master".to_owned())
        } else {
            Err(GitError::NoDefaultBranch)
        }
    }

    /// Parses a worktree porcelain listing into branch-to-path pairs; an
    /// absent listing (the query is unsupported or failed) degrades to an
    /// empty mapping rather than an error.
    pub fn get_worktrees(&self, raw: Option<&str>) -> (r: Vec<(String, String)>)
        ensures
            raw is None ==> r.deep_view() == Seq::<(Seq<char>, Seq<char>)>::empty(),
            raw matches Some(t) ==> r.deep_view() == spec_worktrees(t@),
    {
        let mut out: Vec<(String, String)> = Vec::new();
        let text = match raw {
            Some(t) => t,
            None => {
                proof {
                    assert(out.deep_view() =~= Seq::<(Seq<char>, Seq<char>)>::empty());
                }
                return out;
            },
        };
        let lines = split_lines_str(text);
        let ghost lv = lines.deep_view();
        let mut wt: String = String::new();
        let mut br: String = String::new();
        let mut k: usize = 0;
        proof {
            assert(out.deep_view() + wt_pairs_from(lv, 0, wt@, br@) =~= spec_worktrees(text@));
        }
        while k < lines.len()
            invariant
                lv == lines.deep_view(),
                lv.len() == lines.len(),
                0 <= k <= lines.len(),
                spec_worktrees(text@) == out.deep_view() + wt_pairs_from(
                    lv,
                    k as int,
                    wt@,
                    br@,
                ),
            decreases lines.len() - k,
        {
            let line = &lines[k];
            proof {
                assert(lv[k as int] == lines@[k as int]@);
            }
            match strip_prefix_str(line.as_str(), "worktree ") {
                Some(rest) => {
                    wt = rest;
                },
                None => {
                    match strip_prefix_str(line.as_str(), "branch ") {
                        Some(rest) => {
                            match strip_prefix_str(rest.as_str(), "refs/heads/") {
                                Some(name) => {
                                    br = name;
                                },
                                None => {},
                            }
                        },
                        None => {},
                    }
                },
            }
            if wt.as_str().unicode_len() > 0 && br.as_str().unicode_len() > 0 {
                let ghost old_dv = out.deep_view();
                out.push((br.clone(), wt.clone()));
                proof {
                    assert(out.deep_view() =~= old_dv + seq![(br@, wt@)]);
                }
                br = String::new();
            }
            k += 1;
        }
        out
    }

    /// Parses a two-field ref listing into branch snapshots, leaving the
    /// current branch out and annotating each branch with its worktree
    /// path where the mapping has one. Lines of any other shape are
    /// ignored.
    pub fn get_local_branches(
        &self,
        raw: &str,
        current: &str,
        worktrees: &Vec<(String, String)>,
    ) -> (r: Vec<BranchInfo>)
        ensures
            r.deep_view() == spec_local_branches(raw@, current@, worktrees.deep_view()),
    {
        let lines = split_lines_str(raw);
        let ghost lv = lines.deep_view();
        let mut out: Vec<BranchInfo> = Vec::new();
        let mut k: usize = 0;
        proof {
            assert(out.deep_view() + branch_list_from(lv, 0, current@, worktrees.deep_view())
                =~= spec_local_branches(raw@, current@, worktrees.deep_view()));
        }
        while k < lines.len()
            invariant
                lv == lines.deep_view(),
                lv.len() == lines.len(),
                0 <= k <= lines.len(),
                spec_local_branches(raw@, current@, worktrees.deep_view()) == out.deep_view()
                    + branch_list_from(lv, k as int, current@, worktrees.deep_view()),
            decreases lines.len() - k,
        {
            proof {
                assert(lv[k as int] == lines@[k as int]@);
            }
            let fs = fields_str(lines[k].as_str());
            proof {
                assert(fs.deep_view().len() == fs@.len());
            }
            if fs.len() == 2 && !str_eq(fs[0].as_str(), current) {
                proof {
                    assert(fs.deep_view()[0] == fs@[0]@);
                    assert(fs.deep_view()[1] == fs@[1]@);
                }
                let wp = worktree_lookup(worktrees, fs[0].as_str());
                let ghost old_dv = out.deep_view();
                let info = BranchInfo {
                    name: fs[0].clone(),
                    commit_id: fs[1].clone(),
                    worktree_path: wp,
                };
                out.push(info);
                proof {
                    assert(out.deep_view() =~= old_dv + seq![info@]);
                }
            }
            k += 1;
        }
        out
    }

    /// Classifies one branch by the decision table of [`spec_classify`],
    /// returning its status and the ref mutation, if any, the caller must
    /// perform.
    pub fn check_branch_status(&self, obs: &BranchObservation) -> (r: Result<
        (BranchStatus, ClassifyAction),
        GitError,
    >)
        ensures
            classify_view(r) == spec_classify(obs@),
    {
        if !obs.has_remote_ref {
            return Ok((BranchStatus::LocalOnly(obs.name.clone()), ClassifyAction::Nothing));
        }
        let raw = match &obs.counts_output {
            None => {
                return Err(GitError::QueryFailed);
            },
            Some(raw) => raw,
        };
        let fs = fields_str(raw.as_str());
        if fs.len() != 2 {
            return Ok((BranchStatus::RemoteGone(obs.name.clone()), ClassifyAction::Nothing));
        }
        proof {
            assert(fs.deep_view()[0] == fs@[0]@);
            assert(fs.deep_view()[1] == fs@[1]@);
        }
        let ahead = parse_count(fs[0].as_str());
        let behind = parse_count(fs[1].as_str());
        if ahead == 0 && behind == 0 {
            return Ok((BranchStatus::UpToDate, ClassifyAction::Nothing));
        }
        if ahead > 0 {
            return Ok((BranchStatus::Diverged(obs.name.clone()), ClassifyAction::Nothing));
        }
        if !obs.remote_ref_confirmed {
            return Ok((BranchStatus::RemoteGone(obs.name.clone()), ClassifyAction::Nothing));
        }
        match (&obs.local_tip, &obs.remote_tip) {
            (Some(lt), Some(rt)) => {
                let local = trim_str(lt.as_str());
                let remote = trim_str(rt.as_str());
                if !str_eq(local.as_str(), remote.as_str()) {
                    Ok((BranchStatus::Updated(obs.name.clone()), ClassifyAction::AdvanceToRemote))
                } else {
                    Ok((BranchStatus::UpToDate, ClassifyAction::Nothing))
                }
            },
            _ => Err(GitError::QueryFailed),
        }
    }

    /// Reads the sweep candidates out of a merged-branch listing: every
    /// merged branch except the default branch, the conventional default
    /// names, and the current branch, which the sweep never deletes.
    pub fn merged_candidates(&self, merged_output: &str, default_branch: &str, current: &str) -> (r:
        Vec<String>)
        ensures
            r.deep_view() == spec_candidates(merged_output@, default_branch@, current@),
            forall|j: int|
                0 <= j < r.deep_view().len() ==> r.deep_view()[j] != current@,
    {
        let lines = split_lines_str(merged_output);
        let ghost lv = lines.deep_view();
        let mut out: Vec<String> = Vec::new();
        let mut k: usize = 0;
        proof {
            assert(out.deep_view() + candidates_from(lv, 0, default_branch@, current@)
                =~= spec_candidates(merged_output@, default_branch@, current@));
        }
        while k < lines.len()
            invariant
                lv == lines.deep_view(),
                lv.len() == lines.len(),
                0 <= k <= lines.len(),
                spec_candidates(merged_output@, default_branch@, current@) == out.deep_view()
                    + candidates_from(lv, k as int, default_branch@, current@),
                forall|j: int| 0 <= j < out.deep_view().len() ==> out.deep_view()[j] != current@,
            decreases lines.len() - k,
        {
            proof {
                assert(lv[k as int] == lines@[k as int]@);
            }
            let t = trim_str(lines[k].as_str());
            let keep = t.as_str().unicode_len() > 0 && !str_eq(t.as_str(), default_branch)
                && !str_eq(t.as_str(), "master") && !str_eq(t.as_str(), "main") && !str_eq(
                t.as_str(),
                current,
            ) && t.as_str().get_char(0) != '*';
            if keep {
                let ghost old_dv = out.deep_view();
                out.push(t);
                proof {
                    assert(out.deep_view() =~= old_dv + seq![trimmed(lv[k as int])]);
                }
            }
            k += 1;
        }
        proof {
            lemma_candidates_avoid(lv, 0, default_branch@, current@, current@);
        }
        out
    }

    /// Runs the sync decision over one run's observations, per
    /// [`spec_sync`]: the short-circuit on a dirty tree, the failure
    /// without a remote, and otherwise the ordered statuses of the pull
    /// attempt, the sweep, and the per-branch classification, with the
    /// refs the caller must advance.
    pub fn sync_branches(&self, obs: &SyncObservations) -> (r: Result<SyncOutcome, GitError>)
        ensures
            outcome_view(r) == spec_sync(obs@),
    {
        if self.working_tree_dirty(obs.status_output.as_str()) {
            let statuses = vec![BranchStatus::Modified(obs.current_branch.clone())];
            let advances: Vec<String> = Vec::new();
            let out = SyncOutcome { statuses, advances };
            proof {
                assert(out.statuses.deep_view() =~= seq![
                    StatusModel::Modified(obs.current_branch@),
                ]);
                assert(out.advances.deep_view() =~= Seq::<Seq<char>>::empty());
            }
            return Ok(out);
        }
        if !self.remote_configured(obs.remote_output.as_str()) {
            return Err(GitError::NoRemoteConfigured);
        }
        let cands = self.merged_candidates(
            obs.merged_output.as_str(),
            obs.default_branch.as_str(),
            obs.current_branch.as_str(),
        );
        let ghost cv = cands.deep_view();
        let ghost okv = obs.delete_ok.deep_view();

        // The deleted subset of the candidates, by the caller's outcomes.
        let mut deleted: Vec<String> = Vec::new();
        let mut k: usize = 0;
        proof {
            assert(okv.len() == obs.delete_ok@.len());
            assert(deleted.deep_view() + deleted_from(cv, okv, 0) =~= spec_deleted(cv, okv));
        }
        while k < cands.len()
            invariant
                cv == cands.deep_view(),
                cv.len() == cands.len(),
                okv == obs.delete_ok.deep_view(),
                okv.len() == obs.delete_ok.len(),
                0 <= k <= cands.len(),
                spec_deleted(cv, okv) == deleted.deep_view() + deleted_from(cv, okv, k as int),
            decreases cands.len() - k,
        {
            proof {
                assert(cv[k as int] == cands@[k as int]@);
            }
            if k < obs.delete_ok.len() && obs.delete_ok[k] {
                let ghost old_dv = deleted.deep_view();
                deleted.push(cands[k].clone());
                proof {
                    assert(deleted.deep_view() =~= old_dv + seq![cv[k as int]]);
                }
            }
            k += 1;
        }
        let ghost dv = deleted.deep_view();
        proof {
            assert(dv =~= spec_deleted(cv, okv));
        }

        // The statuses of the pull attempt and of the sweep, in order.
        let mut statuses: Vec<BranchStatus> = Vec::new();
        if obs.current_has_upstream {
            statuses.push(BranchStatus::Updated(obs.current_branch.clone()));
        }
        let ghost head = if obs.current_has_upstream {
            seq![StatusModel::Updated(obs.current_branch@)]
        } else {
            Seq::<StatusModel>::empty()
        };
        proof {
            assert(statuses.deep_view() =~= head);
        }
        let ghost merged_seq = dv.map(|j: int, n: Seq<char>| StatusModel::Merged(n));
        let mut k2: usize = 0;
        while k2 < deleted.len()
            invariant
                dv == deleted.deep_view(),
                dv.len() == deleted.len(),
                merged_seq == dv.map(|j: int, n: Seq<char>| StatusModel::Merged(n)),
                0 <= k2 <= deleted.len(),
                statuses.deep_view() == head + merged_seq.take(k2 as int),
            decreases deleted.len() - k2,
        {
            proof {
                assert(dv[k2 as int] == deleted@[k2 as int]@);
            }
            let ghost old_dv = statuses.deep_view();
            statuses.push(BranchStatus::Merged(deleted[k2].clone()));
            proof {
                assert(merged_seq[k2 as int] == StatusModel::Merged(dv[k2 as int]));
                assert(merged_seq.take(k2 as int + 1) =~= merged_seq.take(k2 as int).push(
                    merged_seq[k2 as int],
                ));
                assert(statuses.deep_view() =~= old_dv + seq![StatusModel::Merged(dv[k2 as int])]);
            }
            k2 += 1;
        }
        proof {
            assert(merged_seq.take(dv.len() as int) =~= merged_seq);
        }

        // Classify what is left: not deleted, not the current branch.
        let ghost ov = obs.branch_obs.deep_view();
        let ghost cur = obs.current_branch@;
        let mut cls: Vec<BranchStatus> = Vec::new();
        let mut adv: Vec<String> = Vec::new();
        let mut k3: usize = 0;
        proof {
            assert(classify_rest_from(ov, 0, dv, cur) == classify_rest_from(
                ov,
                k3 as int,
                dv,
                cur,
            ));
        }
        while k3 < obs.branch_obs.len()
            invariant
                ov == obs.branch_obs.deep_view(),
                ov.len() == obs.branch_obs.len(),
                dv == deleted.deep_view(),
                cur == obs.current_branch@,
                obs.status_output@.len() == 0,
                trimmed(obs.remote_output@).len() > 0,
                cv == spec_candidates(obs@.merged_output, obs@.default_branch, obs@.current_branch),
                dv == spec_deleted(cv, obs@.delete_ok),
                0 <= k3 <= obs.branch_obs.len(),
                match classify_rest_from(ov, k3 as int, dv, cur) {
                    Ok(rest) => classify_rest_from(ov, 0, dv, cur) == Ok::<
                        (Seq<StatusModel>, Seq<Seq<char>>),
                        GitError,
                    >((cls.deep_view() + rest.0, adv.deep_view() + rest.1)),
                    Err(e) => classify_rest_from(ov, 0, dv, cur) == Err::<
                        (Seq<StatusModel>, Seq<Seq<char>>),
                        GitError,
                    >(e),
                },
            decreases obs.branch_obs.len() - k3,
        {
            let bo = &obs.branch_obs[k3];
            proof {
                assert(ov[k3 as int] == obs.branch_obs@[k3 as int]@);
            }
            let skip = str_eq(bo.name.as_str(), obs.current_branch.as_str()) || vec_contains_str(
                &deleted,
                bo.name.as_str(),
            );
            if !skip {
                match self.check_branch_status(bo) {
                    Err(e) => {
                        proof {
                            assert(spec_classify(ov[k3 as int]) == Err::<
                                (StatusModel, ClassifyAction),
                                GitError,
                            >(e));
                            assert(classify_rest_from(ov, k3 as int, dv, cur) == Err::<
                                (Seq<StatusModel>, Seq<Seq<char>>),
                                GitError,
                            >(e));
                            assert(spec_sync(obs@) == Err::<
                                (Seq<StatusModel>, Seq<Seq<char>>),
                                GitError,
                            >(e));
                        }
                        return Err(e);
                    },
                    Ok((st, act)) => {
                        let ghost old_cls = cls.deep_view();
                        let ghost old_adv = adv.deep_view();
                        let ghost stv = st@;
                        let advance = match act {
                            ClassifyAction::AdvanceToRemote => true,
                            ClassifyAction::Nothing => false,
                        };
                        cls.push(st);
                        if advance {
                            adv.push(bo.name.clone());
                        }
                        proof {
                            assert(cls.deep_view() =~= old_cls + seq![stv]);
                            if advance {
                                assert(adv.deep_view() =~= old_adv + seq![ov[k3 as int].name]);
                            }
                            if let Ok(rest) = classify_rest_from(ov, k3 as int + 1, dv, cur) {
                                assert(old_cls + (seq![stv] + rest.0) =~= cls.deep_view() + rest.0);
                                if advance {
                                    assert(old_adv + (seq![ov[k3 as int].name] + rest.1)
                                        =~= adv.deep_view() + rest.1);
                                } else {
                                    assert(old_adv + (Seq::<Seq<char>>::empty() + rest.1)
                                        =~= adv.deep_view() + rest.1);
                                }
                            }
                        }
                    },
                }
            }
            k3 += 1;
        }

        // Assemble the outcome in the decided order.
        let ghost cls_dv = cls.deep_view();
        let mut tail = cls;
        let ghost pre_dv = statuses.deep_view();
        statuses.append(&mut tail);
        proof {
            assert(statuses.deep_view() =~= pre_dv + cls_dv);
            assert(pre_dv + cls_dv =~= (head + merged_seq) + cls_dv);
        }
        let out = SyncOutcome { statuses, advances: adv };
        proof {
            assert(outcome_view(Ok(out)) == spec_sync(obs@));
        }
        Ok(out)
    }
}

/// No sweep candidate, from line `i` onward, carries a protected name: the
/// candidate filter drops every line that trims to the current branch, the
/// default branch, or a conventional default name.
pub proof fn lemma_candidates_avoid(
    ls: Seq<Seq<char>>,
    i: int,
    default: Seq<char>,
    current: Seq<char>,
    name: Seq<char>,
)
    requires
        name == current || name == default || name == "main"@ || name == "master"@,
    ensures
        forall|j: int|
            0 <= j < candidates_from(ls, i, default, current).len()
                ==> candidates_from(ls, i, default, current)[j] != name,
    decreases ls.len() - i,
{
    if i < 0 || i >= ls.len() {
    } else {
        lemma_candidates_avoid(ls, i + 1, default, current, name);
        let t = trimmed(ls[i]);
        let keep = t.len() > 0 && t != default && t != "master"@ && t != "main"@ && t != current
            && t[0] != '*';
        let pre = if keep {
            seq![t]
        } else {
            Seq::<Seq<char>>::empty()
        };
        let whole = candidates_from(ls, i, default, current);
        assert(whole == pre + candidates_from(ls, i + 1, default, current));
        assert forall|j: int| 0 <= j < whole.len() implies whole[j] != name by {
            if j >= pre.len() {
                assert(whole[j] == candidates_from(ls, i + 1, default, current)[j - pre.len()]);
            }
        }
    }
}

} // verus!
