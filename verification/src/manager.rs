//! The Manager: turns validated inputs into a rule list and, as the Runner,
//! applies each rule in sequence to the modeled filesystem.

use vstd::prelude::*;
use vstd::string::StringExecFns;
use crate::config::{
    AppError, AppErrorKind, Config, Engine, Kind, PathState,
};
use crate::fsmodel::{
    forest_of, lemma_forest_of, reports_of, tree_of, Event, FsNode, Report, Tree,
};
use crate::text::{base_name, extension, lower_of, lowercase, path_ext};
use crate::walker::{forest_reports, walk_forest};

verus! {

/// Whether a path names a JSON file: its entry has an extension whose
/// lowercase form is exactly "json".
pub open spec fn json_ext(path: Seq<char>) -> bool {
    match path_ext(path) {
        Some(e) => lower_of(e) == "json"@,
        None => false,
    }
}

/// What remains of one rule's destination tree after the rule runs: a
/// directory keeps its name and has its children walked (a dry run leaves
/// them untouched); anything else is untouched.
pub open spec fn run_tree(t: Tree, c: Config, dry: bool) -> Tree {
    match t {
        Tree::Dir { name, entries } => (Tree::Dir {
            name,
            entries: if dry {
                entries
            } else {
                walk_forest(entries, c.kind, c.patterns_view(), c.exclude_view())
            },
        }),
        Tree::File { .. } => t,
    }
}

/// The report lines of one rule's run over its destination tree.
pub open spec fn run_tree_reports(t: Tree, c: Config, dry: bool) -> Seq<Report> {
    match t {
        Tree::Dir { entries, .. } => forest_reports(
            entries,
            c.kind,
            c.patterns_view(),
            c.exclude_view(),
            dry,
        ),
        Tree::File { .. } => Seq::empty(),
    }
}

/// The report lines of a whole run: each rule applied to its own destination
/// tree, strictly in sequence.
pub open spec fn run_reports(ts: Seq<Tree>, cs: Seq<Config>, dry: bool) -> Seq<Report>
    decreases cs.len(),
{
    if cs.len() == 0 || ts.len() == 0 {
        Seq::empty()
    } else {
        run_tree_reports(ts[0], cs[0], dry) + run_reports(
            ts.subrange(1, ts.len() as int),
            cs.subrange(1, cs.len() as int),
            dry,
        )
    }
}

proof fn lemma_run_reports_push(ts: Seq<Tree>, cs: Seq<Config>, t: Tree, c: Config, dry: bool)
    requires
        ts.len() == cs.len(),
    ensures
        run_reports(ts.push(t), cs.push(c), dry) == run_reports(ts, cs, dry) + run_tree_reports(
            t,
            c,
            dry,
        ),
    decreases ts.len(),
{
    let ts1 = ts.push(t);
    let cs1 = cs.push(c);
    if ts.len() == 0 {
        assert(ts1[0] == t);
        assert(cs1[0] == c);
        assert(ts1.subrange(1, ts1.len() as int) =~= Seq::<Tree>::empty());
        assert(cs1.subrange(1, cs1.len() as int) =~= Seq::<Config>::empty());
        assert(run_reports(Seq::<Tree>::empty(), Seq::<Config>::empty(), dry)
            == Seq::<Report>::empty());
        assert(run_reports(ts, cs, dry) == Seq::<Report>::empty());
        assert(run_reports(ts1, cs1, dry) == run_tree_reports(ts1[0], cs1[0], dry) + run_reports(
            ts1.subrange(1, ts1.len() as int),
            cs1.subrange(1, cs1.len() as int),
            dry,
        ));
        assert(run_reports(ts1, cs1, dry) =~= run_reports(ts, cs, dry) + run_tree_reports(
            t,
            c,
            dry,
        ));
    } else {
        lemma_run_reports_push(
            ts.subrange(1, ts.len() as int),
            cs.subrange(1, cs.len() as int),
            t,
            c,
            dry,
        );
        assert(ts1.subrange(1, ts1.len() as int) =~= ts.subrange(1, ts.len() as int).push(t));
        assert(cs1.subrange(1, cs1.len() as int) =~= cs.subrange(1, cs.len() as int).push(c));
        assert(ts1[0] == ts[0]);
        assert(cs1[0] == cs[0]);
        assert(run_reports(ts1, cs1, dry) =~= run_reports(ts, cs, dry) + run_tree_reports(
            t,
            c,
            dry,
        ));
    }
}

/// Holds the validated rule list and the dry-run flag for one invocation.
#[derive(Debug, PartialEq)]
pub struct Manager {
    pub configs: Vec<Config>,
    pub dryrun: bool,
}

impl Manager {
    /// An empty manager: no rules, removal mode on (not a dry run).
    pub fn new() -> (r: Manager)
        ensures
            r.configs@ == Seq::<Config>::empty(),
            r.dryrun == false,
    {
        Manager { configs: Vec::new(), dryrun: false }
    }

    /// Appends one rule to the list.
    pub fn add(&mut self, config: Config)
        ensures
            final(self).configs@ == old(self).configs@.push(config),
            final(self).dryrun == old(self).dryrun,
    {
        self.configs.push(config);
    }

    /// Normalises discrete destination/kind/patterns/exclude inputs into one
    /// rule and appends it.
    pub fn format(
        &mut self,
        destination: String,
        kind: Kind,
        patterns: Vec<String>,
        exclude: Option<Vec<String>>,
    ) -> (r: Result<(), AppError>)
        ensures
            r is Ok,
            final(self).configs@ == old(self).configs@.push(
                (Config { destination, kind, patterns, exclude }),
            ),
            final(self).dryrun == old(self).dryrun,
    {
        self.add(Config::new(destination, kind, patterns, exclude));
        Ok(())
    }

    /// Validates one invocation's inputs and fills the rule list from them.
    ///
    /// Records the dry-run flag first, whatever else happens. When a config
    /// file was given: the file must exist and bear a (case-insensitive)
    /// "json" extension, and the rules parsed from it replace the list; a
    /// file that could not be parsed is a parse error. Otherwise the
    /// discrete fields must all be present and the destination must be an
    /// existing directory, and one rule built from them is appended.
    pub fn validate(&mut self, engine: Engine) -> (r: Result<(), AppError>)
        ensures
            final(self).dryrun == engine.dryrun,
            match engine.config {
                Some(cf) => {
                    if cf.state == PathState::Missing {
                        r matches Err(e) && e.kind == AppErrorKind::Usage
                            && e.message@ == "config file doesn't exists"@
                            && final(self).configs == old(self).configs
                    } else if !json_ext(cf.path@) {
                        r matches Err(e) && e.kind == AppErrorKind::Usage
                            && e.message@
                            == "config file is not a JSON file, please provide a JSON file"@
                            && final(self).configs == old(self).configs
                    } else {
                        match cf.rules {
                            Some(rules) => r is Ok && final(self).configs == rules,
                            None => r matches Err(e) && e.kind == AppErrorKind::Parse
                                && e.message@
                                == "config file doesn't hold a list of rules"@
                                && final(self).configs == old(self).configs,
                        }
                    }
                },
                None => match (engine.destination, engine.kind, engine.patterns) {
                    (None, _, _) => r matches Err(e) && e.kind == AppErrorKind::Usage
                        && e.message@ == "Please provide destination"@
                        && final(self).configs == old(self).configs,
                    (Some(_), None, _) => r matches Err(e) && e.kind == AppErrorKind::Usage
                        && e.message@ == "Please provide kind"@
                        && final(self).configs == old(self).configs,
                    (Some(_), Some(_), None) => r matches Err(e) && e.kind == AppErrorKind::Usage
                        && e.message@ == "Please provide patterns"@
                        && final(self).configs == old(self).configs,
                    (Some(d), Some(k), Some(p)) => {
                        if d.state == PathState::Missing {
                            r matches Err(e) && e.kind == AppErrorKind::Usage
                                && e.message@ == "destination doesn't exists"@
                                && final(self).configs == old(self).configs
                        } else if d.state != PathState::Directory {
                            r matches Err(e) && e.kind == AppErrorKind::Usage
                                && e.message@
                                == "destination is not a directory, please provide directory path as destination!"@
                                && final(self).configs == old(self).configs
                        } else {
                            r is Ok && final(self).configs@ == old(self).configs@.push(
                                (Config {
                                    destination: d.path,
                                    kind: k,
                                    patterns: p,
                                    exclude: engine.exclude,
                                }),
                            )
                        }
                    },
                },
            },
    {
        self.dryrun = engine.dryrun;
        match engine.config {
            Some(cf) => {
                if cf.state == PathState::Missing {
                    return Err(AppError::new(AppErrorKind::Usage, "config file doesn't exists"));
                }
                let base = base_name(cf.path.as_str());
                let is_json = match extension(base.as_str()) {
                    Some(e) => {
                        let le = lowercase(e.as_str());
                        le == String::from_str("json")
                    },
                    None => false,
                };
                if !is_json {
                    return Err(
                        AppError::new(
                            AppErrorKind::Usage,
                            "config file is not a JSON file, please provide a JSON file",
                        ),
                    );
                }
                match cf.rules {
                    Some(rules) => {
                        self.configs = rules;
                        Ok(())
                    },
                    None => Err(
                        AppError::new(
                            AppErrorKind::Parse,
                            "config file doesn't hold a list of rules",
                        ),
                    ),
                }
            },
            None => {
                let dest = match engine.destination {
                    Some(d) => d,
                    None => {
                        return Err(AppError::new(AppErrorKind::Usage, "Please provide destination"));
                    },
                };
                let kind = match engine.kind {
                    Some(k) => k,
                    None => {
                        return Err(AppError::new(AppErrorKind::Usage, "Please provide kind"));
                    },
                };
                let patterns = match engine.patterns {
                    Some(p) => p,
                    None => {
                        return Err(AppError::new(AppErrorKind::Usage, "Please provide patterns"));
                    },
                };
                if dest.state == PathState::Missing {
                    return Err(AppError::new(AppErrorKind::Usage, "destination doesn't exists"));
                }
                if dest.state != PathState::Directory {
                    return Err(
                        AppError::new(
                            AppErrorKind::Usage,
                            "destination is not a directory, please provide directory path as destination!",
                        ),
                    );
                }
                match self.format(dest.path, kind, patterns, engine.exclude) {
                    Ok(()) => Ok(()),
                    Err(e) => Err(e),
                }
            },
        }
    }

    /// The Runner over the modeled filesystem: applies each rule, strictly
    /// in sequence, to the tree standing for that rule's destination, and
    /// returns the report lines of the whole run.
    pub fn execute(&self, roots: &mut Vec<FsNode>) -> (log: Vec<Event>)
        requires
            old(roots)@.len() == self.configs@.len(),
        ensures
            final(roots)@.len() == old(roots)@.len(),
            forall|i: int| 0 <= i < old(roots)@.len() ==> #[trigger] tree_of(final(roots)@[i])
                == run_tree(tree_of(old(roots)@[i]), self.configs@[i], self.dryrun),
            reports_of(log@) == run_reports(forest_of(old(roots)@), self.configs@, self.dryrun),
    {
        let ghost orig = roots@;
        let ghost otrees = forest_of(orig);
        proof {
            lemma_forest_of(orig);
        }
        let mut log: Vec<Event> = Vec::new();
        let n = self.configs.len();
        let mut i: usize = 0;
        while i < n
            invariant
                n == self.configs@.len(),
                orig.len() == n,
                otrees == forest_of(orig),
                otrees.len() == n,
                forall|j: int| 0 <= j < n ==> #[trigger] otrees[j] == tree_of(orig[j]),
                i <= n,
                roots@.len() == n,
                forall|j: int| i <= j < n ==> #[trigger] roots@[j] == orig[j],
                forall|j: int| 0 <= j < i ==> #[trigger] tree_of(roots@[j]) == run_tree(
                    tree_of(orig[j]),
                    self.configs@[j],
                    self.dryrun,
                ),
                reports_of(log@) == run_reports(
                    otrees.subrange(0, i as int),
                    self.configs@.subrange(0, i as int),
                    self.dryrun,
                ),
            decreases n - i,
        {
            let cfg = &self.configs[i];
            let empty_ex: Vec<String> = Vec::new();
            let excl: &Vec<String> = match &cfg.exclude {
                Some(v) => v,
                None => &empty_ex,
            };
            proof {
                assert(excl.deep_view() =~= cfg.exclude_view());
            }
            let ghost log_before = log@;
            let node = roots.remove(i);
            let ghost gnode = node;
            let new_node = match node {
                FsNode::Dir { name, entries } => {
                    let ghost sub = entries@;
                    let kept = crate::walker::remove(
                        entries,
                        &cfg.kind,
                        &cfg.patterns,
                        excl,
                        self.dryrun,
                        &mut log,
                    );
                    let dir = FsNode::Dir { name, entries: kept };
                    proof {
                        assert(tree_of(gnode)->Dir_entries == forest_of(sub));
                        assert(tree_of(dir) == run_tree(tree_of(gnode), self.configs@[i as int], self.dryrun));
                        assert(reports_of(log@.subrange(log_before.len() as int, log@.len() as int))
                            == run_tree_reports(tree_of(gnode), self.configs@[i as int], self.dryrun));
                    }
                    dir
                },
                FsNode::File { name } => {
                    let file = FsNode::File { name };
                    proof {
                        assert(tree_of(file) == run_tree(tree_of(gnode), self.configs@[i as int], self.dryrun));
                        assert(log@ == log_before);
                        assert(reports_of(log@.subrange(log_before.len() as int, log@.len() as int))
                            =~= run_tree_reports(tree_of(gnode), self.configs@[i as int], self.dryrun));
                    }
                    file
                },
            };
            let ghost before_insert = roots@;
            roots.insert(i, new_node);
            proof {
                assert(roots@ =~= before_insert.insert(i as int, new_node));
                lemma_run_reports_push(
                    otrees.subrange(0, i as int),
                    self.configs@.subrange(0, i as int),
                    otrees[i as int],
                    self.configs@[i as int],
                    self.dryrun,
                );
                assert(otrees.subrange(0, i + 1) =~= otrees.subrange(0, i as int).push(
                    otrees[i as int],
                ));
                assert(self.configs@.subrange(0, i + 1) =~= self.configs@.subrange(0, i as int).push(
                    self.configs@[i as int],
                ));
                assert(reports_of(log@) =~= reports_of(log_before) + reports_of(
                    log@.subrange(log_before.len() as int, log@.len() as int),
                ));
            }
            i += 1;
        }
        proof {
            assert(otrees.subrange(0, n as int) =~= otrees);
            assert(self.configs@.subrange(0, n as int) =~= self.configs@);
        }
        log
    }
}

impl Default for Manager {
    /// An empty manager, as `Manager::new` builds it.
    fn default() -> (r: Self)
        ensures
            r.configs@ == Seq::<Config>::empty(),
            r.dryrun == false,
    {
        Manager::new()
    }
}

} // verus!
