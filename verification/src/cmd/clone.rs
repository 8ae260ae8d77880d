use crate::config::{default_owner_view, spec_profile_index, Config};
use crate::error::Error;
use crate::git::{clone_url, clone_url_view};
use crate::identity::Identity;
use crate::path::{lemma_path_resolver_injective, path_view, resolve as resolve_path, Root,
    traversal_free, valid_segment};
use crate::reference::{opt_view, resolve as resolve_reference, spec_resolve};
use crate::rules::{select, spec_select};
use vstd::prelude::*;

verus! {

/// The clone command: the requested references and the options that shape
/// every task made from them.
pub struct Cmd {
    /// URLs or patterns of the repositories to clone.
    pub repo: Vec<String>,
    /// Clones their submodules recursively.
    pub recursive: bool,
    /// Change directory after a repository is cloned (shell extension).
    pub cd: bool,
    /// Opens the directory after a repository is cloned.
    pub open: Option<String>,
}

/// One planned clone: everything a task needs, computed before any I/O.
/// Ephemeral — created at the start of an invocation, reported on, dropped.
pub struct CloneTask {
    pub raw: String,
    pub identity: Identity,
    pub target: String,
    pub remote: String,
    pub profile: Option<String>,
    pub open: Option<String>,
    pub recursive: bool,
}

/// What one task reports when it succeeds: where the repository landed,
/// which profile was attached, and which application was opened.
pub struct CloneOutcome {
    pub path: String,
    pub profile: Option<String>,
    pub open: Option<String>,
}

/// The views of the requested raw references.
pub open spec fn raw_views(repos: Seq<String>) -> Seq<Seq<char>> {
    repos.map_values(|s: String| s@)
}

/// Whether one planned task is exactly what the configuration dictates for
/// the raw reference.
pub open spec fn task_matches(
    cfg: &Config,
    root: Seq<char>,
    raw: Seq<char>,
    recursive: bool,
    open: Option<String>,
    t: CloneTask,
) -> bool {
    let r = spec_resolve(raw, cfg.patterns@, default_owner_view(&cfg.defaults));
    &&& r is Some
    &&& t.raw@ == raw
    &&& t.identity.host@ == r->Some_0.0
    &&& t.identity.owner@ == r->Some_0.1
    &&& t.identity.repo@ == r->Some_0.2
    &&& traversal_free(t.identity)
    &&& t.target@ == path_view(root, t.identity)
    &&& t.remote@ == clone_url_view(t.identity.host@, t.identity.owner@, t.identity.repo@)
    &&& match spec_select(t.identity, cfg.rules@) {
        None => t.profile is None,
        Some(nm) => match spec_profile_index(cfg.profiles@, nm) {
            Some(_) => t.profile matches Some(p) && p@ == nm,
            None => t.profile is None,
        },
    }
    &&& t.open == open
    &&& t.recursive == recursive
}

/// Whether a raw reference plans to a task at all: it resolves, and the
/// resolved identity stays under the root.
pub open spec fn planned_ok(cfg: &Config, raw: Seq<char>) -> bool {
    let r = spec_resolve(raw, cfg.patterns@, default_owner_view(&cfg.defaults));
    &&& r is Some
    &&& valid_segment(r->Some_0.0)
    &&& valid_segment(r->Some_0.1)
    &&& valid_segment(r->Some_0.2)
}

/// What planning one reference yields: the dictated task when the reference
/// plans, else that reference's own resolution-stage error — which, under
/// the orchestrator, fails only the task it belongs to.
pub open spec fn task_outcome_matches(
    cfg: &Config,
    root: Seq<char>,
    raw: Seq<char>,
    recursive: bool,
    open: Option<String>,
    out: Result<CloneTask, Error>,
) -> bool {
    match out {
        Ok(t) => planned_ok(cfg, raw) && task_matches(cfg, root, raw, recursive, open, t),
        Err(e) => {
            let r = spec_resolve(raw, cfg.patterns@, default_owner_view(&cfg.defaults));
            &&& !planned_ok(cfg, raw)
            &&& (r is None ==> e is UnresolvedReference)
            &&& (r is Some ==> e is InvalidIdentitySegment)
        },
    }
}

/// Whether two requested references collide: both plan to a task and
/// resolve to the same identity, hence to the same target path.
pub open spec fn has_duplicate(cfg: &Config, raws: Seq<Seq<char>>) -> bool {
    exists|i: int, j: int|
        0 <= i < j < raws.len() && planned_ok(cfg, #[trigger] raws[i]) && planned_ok(
            cfg,
            #[trigger] raws[j],
        ) && spec_resolve(raws[i], cfg.patterns@, default_owner_view(&cfg.defaults))
            == spec_resolve(raws[j], cfg.patterns@, default_owner_view(&cfg.defaults))
}

/// Whether two tasks point at the same canonical identity.
pub open spec fn same_identity(a: CloneTask, b: CloneTask) -> bool {
    a.identity.host@ == b.identity.host@ && a.identity.owner@ == b.identity.owner@
        && a.identity.repo@ == b.identity.repo@
}

impl Cmd {
    /// The compute part of cloning: resolves every requested reference,
    /// derives its target path, and picks its profile. A reference that
    /// cannot be resolved, or whose identity would escape the root, fails
    /// only its own task; the others are planned around it. Two references
    /// that resolve to the same identity are rejected as a whole plan,
    /// upfront, before anything is dispatched — distinct identities are
    /// guaranteed distinct target paths, so the tasks of an accepted plan
    /// never write to one another's target.
    pub fn plan(&self, root: &Root, config: &Config) -> (r: Result<
        Vec<Result<CloneTask, Error>>,
        Error,
    >)
        ensures
            r is Ok <==> !has_duplicate(config, raw_views(self.repo@)),
            r is Err ==> r->Err_0 is DuplicateTarget,
            r is Ok ==> {
                let outs = r->Ok_0@;
                &&& outs.len() == self.repo@.len()
                &&& forall|i: int| 0 <= i < outs.len() ==> task_outcome_matches(
                    config,
                    root.path@,
                    self.repo@[i]@,
                    self.recursive,
                    self.open,
                    #[trigger] outs[i],
                )
                &&& forall|i: int, j: int|
                    0 <= i < j < outs.len() && outs[i] is Ok && outs[j] is Ok
                        ==> (#[trigger] outs[i])->Ok_0.target@ != (#[trigger] outs[j])->Ok_0.target@
            },
    {
        let ghost dov = default_owner_view(&config.defaults);
        let default_owner = match &config.defaults.owner {
            Some(o) => Some(o.as_str()),
            None => None,
        };
        proof {
            assert(opt_view(default_owner) == dov);
        }
        let n = self.repo.len();
        let mut outs: Vec<Result<CloneTask, Error>> = Vec::new();
        let mut idx: usize = 0;
        while idx < n
            invariant
                n == self.repo@.len(),
                idx <= n,
                outs@.len() == idx,
                dov == default_owner_view(&config.defaults),
                opt_view(default_owner) == dov,
                forall|i: int| 0 <= i < idx ==> task_outcome_matches(
                    config,
                    root.path@,
                    self.repo@[i]@,
                    self.recursive,
                    self.open,
                    #[trigger] outs@[i],
                ),
            decreases n - idx,
        {
            let raw = &self.repo[idx];
            match resolve_reference(raw.as_str(), &config.patterns, default_owner) {
                Err(e) => {
                    outs.push(Err(e));
                },
                Ok(id) => {
                    match resolve_path(root, &id) {
                        Err(e) => {
                            proof {
                                assert(!(valid_segment(id.host@) && valid_segment(id.owner@)
                                    && valid_segment(id.repo@)));
                            }
                            outs.push(Err(e));
                        },
                        Ok(target) => {
                            let remote = clone_url(&id);
                            let profile = match select(&id, &config.rules) {
                                Some(nm) => match config.profile_named(&nm) {
                                    Some(_) => Some(nm),
                                    None => None,
                                },
                                None => None,
                            };
                            let open = match &self.open {
                                Some(a) => Some(a.clone()),
                                None => None,
                            };
                            outs.push(
                                Ok(
                                    CloneTask {
                                        raw: raw.clone(),
                                        identity: id,
                                        target,
                                        remote,
                                        profile,
                                        open,
                                        recursive: self.recursive,
                                    },
                                ),
                            );
                        },
                    }
                },
            }
            idx = idx + 1;
        }
        let mut i: usize = 0;
        while i < n
            invariant
                n == self.repo@.len(),
                i <= n,
                outs@.len() == n,
                dov == default_owner_view(&config.defaults),
                forall|k: int| 0 <= k < n ==> task_outcome_matches(
                    config,
                    root.path@,
                    self.repo@[k]@,
                    self.recursive,
                    self.open,
                    #[trigger] outs@[k],
                ),
                forall|a: int, b: int|
                    0 <= a < i && a < b < n && outs@[a] is Ok && outs@[b] is Ok
                        ==> !same_identity((#[trigger] outs@[a])->Ok_0, (#[trigger] outs@[b])->Ok_0),
            decreases n - i,
        {
            let mut j: usize = i + 1;
            while j < n
                invariant
                    n == self.repo@.len(),
                    i < n,
                    i + 1 <= j <= n,
                    outs@.len() == n,
                    dov == default_owner_view(&config.defaults),
                    forall|k: int| 0 <= k < n ==> task_outcome_matches(
                        config,
                        root.path@,
                        self.repo@[k]@,
                        self.recursive,
                        self.open,
                        #[trigger] outs@[k],
                    ),
                    forall|b: int|
                        i < b < j && outs@[i as int] is Ok && outs@[b] is Ok ==> !same_identity(
                            outs@[i as int]->Ok_0,
                            (#[trigger] outs@[b])->Ok_0,
                        ),
                decreases n - j,
            {
                let duplicate_target: Option<String> = match (&outs[i], &outs[j]) {
                    (Ok(a), Ok(b)) => {
                        if a.identity.host == b.identity.host && a.identity.owner
                            == b.identity.owner && a.identity.repo == b.identity.repo {
                            Some(b.target.clone())
                        } else {
                            None
                        }
                    },
                    _ => None,
                };
                if let Some(target) = duplicate_target {
                    proof {
                        let raws = raw_views(self.repo@);
                        assert(raws[i as int] == self.repo@[i as int]@);
                        assert(raws[j as int] == self.repo@[j as int]@);
                        let ra = spec_resolve(self.repo@[i as int]@, config.patterns@, dov);
                        let rb = spec_resolve(self.repo@[j as int]@, config.patterns@, dov);
                        assert(task_outcome_matches(
                            config,
                            root.path@,
                            self.repo@[i as int]@,
                            self.recursive,
                            self.open,
                            outs@[i as int],
                        ));
                        assert(task_outcome_matches(
                            config,
                            root.path@,
                            self.repo@[j as int]@,
                            self.recursive,
                            self.open,
                            outs@[j as int],
                        ));
                        assert(ra->Some_0.0 == rb->Some_0.0);
                        assert(ra->Some_0.1 == rb->Some_0.1);
                        assert(ra->Some_0.2 == rb->Some_0.2);
                        assert(ra == rb);
                        assert(has_duplicate(config, raws));
                    }
                    return Err(Error::DuplicateTarget(target));
                }
                j = j + 1;
            }
            i = i + 1;
        }
        proof {
            let raws = raw_views(self.repo@);
            assert(raws.len() == n);
            if has_duplicate(config, raws) {
                let (a, b) = choose|a: int, b: int|
                    0 <= a < b < raws.len() && planned_ok(config, #[trigger] raws[a]) && planned_ok(
                        config,
                        #[trigger] raws[b],
                    ) && spec_resolve(raws[a], config.patterns@, dov) == spec_resolve(
                        raws[b],
                        config.patterns@,
                        dov,
                    );
                assert(raws[a] == self.repo@[a]@);
                assert(raws[b] == self.repo@[b]@);
                assert(task_outcome_matches(
                    config,
                    root.path@,
                    self.repo@[a]@,
                    self.recursive,
                    self.open,
                    outs@[a],
                ));
                assert(task_outcome_matches(
                    config,
                    root.path@,
                    self.repo@[b]@,
                    self.recursive,
                    self.open,
                    outs@[b],
                ));
                assert(outs@[a] is Ok && outs@[b] is Ok);
                assert(same_identity(outs@[a]->Ok_0, outs@[b]->Ok_0));
                assert(false);
            }
            assert forall|a: int, b: int|
                0 <= a < b < n && outs@[a] is Ok && outs@[b] is Ok implies (#[trigger] outs@[a])->Ok_0.target@
                != (#[trigger] outs@[b])->Ok_0.target@ by {
                assert(!same_identity(outs@[a]->Ok_0, outs@[b]->Ok_0));
                lemma_path_resolver_injective(
                    root.path@,
                    outs@[a]->Ok_0.identity,
                    outs@[b]->Ok_0.identity,
                );
            }
        }
        Ok(outs)
    }
}

} // verus!
