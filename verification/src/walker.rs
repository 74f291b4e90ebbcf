//! The Walker: a depth-first, pre-order traversal over one rule that reports
//! excluded entries, removes matched ones (unless the run is dry), and
//! descends into unmatched directories.

use vstd::prelude::*;
use crate::config::{EntryType, Kind};
use crate::fsmodel::{
    lemma_forest_of, lemma_forest_of_push, forest_of, report_of, reports_of, tree_of, Event,
    FsNode, Report, Tree,
};
use crate::matcher::{entry_matches, find, in_ci, pattern_check};

verus! {

/// Whether the entry's name is in the exclusion set.
pub open spec fn tree_excluded(t: Tree, exclude: Seq<Seq<char>>) -> bool {
    in_ci(exclude, t.name())
}

/// Whether the entry is matched by the rule: the Matcher's decision, with
/// the entry's filesystem type read off the tree.
pub open spec fn tree_matches(t: Tree, kind: Kind, patterns: Seq<Seq<char>>) -> bool {
    match t {
        Tree::File { name } => entry_matches(name, EntryType::Regular, patterns, kind),
        Tree::Dir { name, .. } => entry_matches(name, EntryType::Directory, patterns, kind),
    }
}

/// What remains of one entry after a walk in removal mode reaches it:
/// an excluded entry stays untouched, a matched one disappears wholly, an
/// unmatched directory stays with its children walked, and an unmatched
/// file stays.
pub open spec fn walk_tree(
    t: Tree,
    kind: Kind,
    patterns: Seq<Seq<char>>,
    exclude: Seq<Seq<char>>,
) -> Seq<Tree>
    decreases t,
{
    if tree_excluded(t, exclude) {
        seq![t]
    } else if tree_matches(t, kind, patterns) {
        Seq::empty()
    } else {
        match t {
            Tree::File { .. } => seq![t],
            Tree::Dir { name, entries } => seq![
                Tree::Dir { name, entries: walk_forest(entries, kind, patterns, exclude) },
            ],
        }
    }
}

/// What remains of a sequence of sibling entries, walked in order.
pub open spec fn walk_forest(
    s: Seq<Tree>,
    kind: Kind,
    patterns: Seq<Seq<char>>,
    exclude: Seq<Seq<char>>,
) -> Seq<Tree>
    decreases s,
{
    if s.len() == 0 {
        Seq::empty()
    } else {
        walk_tree(s[0], kind, patterns, exclude) + walk_forest(
            s.subrange(1, s.len() as int),
            kind,
            patterns,
            exclude,
        )
    }
}

/// The report lines the walk emits for one entry: one line for an excluded
/// entry, an intent line (and, unless the run is dry, a completion line) for
/// a matched one, and the lines of the recursive walk for an unmatched
/// directory. An unmatched file is silent.
pub open spec fn tree_reports(
    t: Tree,
    kind: Kind,
    patterns: Seq<Seq<char>>,
    exclude: Seq<Seq<char>>,
    dryrun: bool,
) -> Seq<Report>
    decreases t,
{
    if tree_excluded(t, exclude) {
        seq![Report::Excluded { name: t.name() }]
    } else if tree_matches(t, kind, patterns) {
        if dryrun {
            seq![Report::Removing { name: t.name() }]
        } else {
            seq![Report::Removing { name: t.name() }, Report::Removed { name: t.name() }]
        }
    } else {
        match t {
            Tree::File { .. } => Seq::empty(),
            Tree::Dir { name, entries } => forest_reports(entries, kind, patterns, exclude, dryrun),
        }
    }
}

/// The report lines for a sequence of sibling entries, in walk order.
pub open spec fn forest_reports(
    s: Seq<Tree>,
    kind: Kind,
    patterns: Seq<Seq<char>>,
    exclude: Seq<Seq<char>>,
    dryrun: bool,
) -> Seq<Report>
    decreases s,
{
    if s.len() == 0 {
        Seq::empty()
    } else {
        tree_reports(s[0], kind, patterns, exclude, dryrun) + forest_reports(
            s.subrange(1, s.len() as int),
            kind,
            patterns,
            exclude,
            dryrun,
        )
    }
}

/// The size of one modeled entry: itself plus everything below it.
pub open spec fn node_size(n: FsNode) -> nat
    decreases n,
{
    match n {
        FsNode::File { .. } => 1,
        FsNode::Dir { entries, .. } => 1 + forest_size(entries@),
    }
}

/// The total size of a sequence of modeled entries.
pub open spec fn forest_size(s: Seq<FsNode>) -> nat
    decreases s,
{
    if s.len() == 0 {
        0
    } else {
        node_size(s[0]) + forest_size(s.subrange(1, s.len() as int))
    }
}

/// The Walker over the modeled filesystem. Walks the children of one
/// directory, in order: reports and skips excluded entries, reports and (in
/// removal mode) drops matched ones, and descends into unmatched
/// directories; returns what remains and appends one event per report line
/// to `log`. A dry run changes nothing and emits no completion lines.
pub fn remove(
    entries: Vec<FsNode>,
    kind: &Kind,
    patterns: &Vec<String>,
    exclude: &Vec<String>,
    dryrun: bool,
    log: &mut Vec<Event>,
) -> (kept: Vec<FsNode>)
    ensures
        !dryrun ==> forest_of(kept@) == walk_forest(
            forest_of(entries@),
            *kind,
            patterns.deep_view(),
            exclude.deep_view(),
        ),
        dryrun ==> forest_of(kept@) == forest_of(entries@),
        final(log)@.len() >= old(log)@.len(),
        final(log)@.subrange(0, old(log)@.len() as int) == old(log)@,
        reports_of(final(log)@.subrange(old(log)@.len() as int, final(log)@.len() as int)) == forest_reports(
            forest_of(entries@),
            *kind,
            patterns.deep_view(),
            exclude.deep_view(),
            dryrun,
        ),
    decreases forest_size(entries@),
{
    let ghost pats = patterns.deep_view();
    let ghost excl = exclude.deep_view();
    let ghost base = log@;
    let mut rest = entries;
    let mut kept: Vec<FsNode> = Vec::new();
    if rest.len() == 0 {
        proof {
            assert(forest_of(kept@) =~= Seq::<Tree>::empty());
            assert(log@.subrange(0, base.len() as int) =~= base);
            assert(reports_of(log@.subrange(base.len() as int, log@.len() as int))
                =~= Seq::<Report>::empty());
        }
        return kept;
    }
    let node = rest.remove(0);
    let ghost gnode = node;
    let ghost t = tree_of(gnode);
    proof {
        lemma_forest_of(entries@);
        assert(entries@[0] == gnode);
        assert(forest_of(entries@)[0] == t);
        assert(forest_of(entries@).subrange(1, forest_of(entries@).len() as int)
            =~= forest_of(rest@));
        assert(node_size(gnode) >= 1);
        assert(forest_size(entries@) == node_size(gnode) + forest_size(rest@));
    }
    let excluded = find(node.name().as_str(), exclude);
    if excluded.is_some() {
        proof {
            assert(tree_excluded(t, excl));
        }
        log.push(Event::Excluded { name: node.name().clone() });
        kept.push(node);
        proof {
            lemma_forest_of_push(Seq::empty(), gnode);
            assert(forest_of(kept@) =~= seq![t]);
            assert(walk_tree(t, *kind, pats, excl) =~= seq![t]);
            assert(reports_of(log@.subrange(base.len() as int, log@.len() as int))
                =~= tree_reports(t, *kind, pats, excl, dryrun));
        }
    } else {
        proof {
            assert(!tree_excluded(t, excl));
        }
        let et = match &node {
            FsNode::File { .. } => EntryType::Regular,
            FsNode::Dir { .. } => EntryType::Directory,
        };
        let matched = pattern_check(node.name(), &et, patterns, kind);
        proof {
            assert((matched is Some) == tree_matches(t, *kind, pats));
        }
        if matched.is_some() {
            log.push(Event::Removing { name: node.name().clone() });
            if !dryrun {
                log.push(Event::Removed { name: node.name().clone() });
                proof {
                    assert(forest_of(kept@) =~= walk_tree(t, *kind, pats, excl));
                    assert(reports_of(log@.subrange(base.len() as int, log@.len() as int))
                        =~= tree_reports(t, *kind, pats, excl, dryrun));
                }
            } else {
                kept.push(node);
                proof {
                    lemma_forest_of_push(Seq::empty(), gnode);
                    assert(forest_of(kept@) =~= seq![t]);
                    assert(reports_of(log@.subrange(base.len() as int, log@.len() as int))
                        =~= tree_reports(t, *kind, pats, excl, dryrun));
                }
            }
        } else {
            match node {
                FsNode::Dir { name, entries: sub } => {
                    proof {
                        assert(node_size(gnode) == 1 + forest_size(sub@));
                        assert(forest_size(sub@) < forest_size(entries@));
                    }
                    let ghost mid = log@;
                    let sub_kept = remove(sub, kind, patterns, exclude, dryrun, log);
                    let dir = FsNode::Dir { name, entries: sub_kept };
                    let ghost gdir = dir;
                    kept.push(dir);
                    proof {
                        lemma_forest_of_push(Seq::empty(), gdir);
                        assert(t->Dir_entries == forest_of(sub@));
                        if !dryrun {
                            assert(tree_of(gdir) == Tree::Dir {
                                name: t.name(),
                                entries: walk_forest(forest_of(sub@), *kind, pats, excl),
                            });
                            assert(forest_of(kept@) =~= walk_tree(t, *kind, pats, excl));
                        } else {
                            assert(tree_of(gdir) =~= t);
                            assert(forest_of(kept@) =~= seq![t]);
                        }
                        assert(log@.subrange(base.len() as int, log@.len() as int)
                            =~= log@.subrange(mid.len() as int, log@.len() as int));
                        assert(reports_of(log@.subrange(base.len() as int, log@.len() as int))
                            =~= tree_reports(t, *kind, pats, excl, dryrun));
                    }
                },
                FsNode::File { name } => {
                    let file = FsNode::File { name };
                    let ghost gfile = file;
                    kept.push(file);
                    proof {
                        lemma_forest_of_push(Seq::empty(), gfile);
                        assert(tree_of(gfile) == t);
                        assert(forest_of(kept@) =~= seq![t]);
                        assert(walk_tree(t, *kind, pats, excl) =~= seq![t]);
                        assert(reports_of(log@.subrange(base.len() as int, log@.len() as int))
                            =~= tree_reports(t, *kind, pats, excl, dryrun));
                    }
                },
            }
        }
    }
    // `kept` now holds what remains of the first entry, and `log` has grown
    // by exactly its report lines; the siblings follow.
    let ghost after_first_kept = forest_of(kept@);
    let ghost after_first_log = log@;
    proof {
        assert(after_first_kept == if dryrun { seq![t] } else { walk_tree(t, *kind, pats, excl) });
        assert(reports_of(after_first_log.subrange(base.len() as int, after_first_log.len() as int))
            == tree_reports(t, *kind, pats, excl, dryrun));
    }
    let ghost k1 = kept@;
    let mut kept_rest = remove(rest, kind, patterns, exclude, dryrun, log);
    let ghost k2 = kept_rest@;
    kept.append(&mut kept_rest);
    proof {
        assert(kept@ == k1 + k2);
        lemma_forest_of_concat(k1, k2);
        assert(forest_of(kept@) == after_first_kept + forest_of(k2));
        if !dryrun {
            assert(forest_of(kept@) =~= walk_forest(forest_of(entries@), *kind, pats, excl));
        } else {
            lemma_forest_of(rest@);
            lemma_forest_of(entries@);
            assert(forest_of(kept@) =~= forest_of(entries@));
        }
        assert(log@.subrange(0, base.len() as int) =~= base);
        let all = log@.subrange(base.len() as int, log@.len() as int);
        let first = after_first_log.subrange(base.len() as int, after_first_log.len() as int);
        let second = log@.subrange(after_first_log.len() as int, log@.len() as int);
        assert(all =~= first + second);
        assert(reports_of(all) =~= reports_of(first) + reports_of(second));
        assert(reports_of(all) =~= forest_reports(forest_of(entries@), *kind, pats, excl, dryrun));
    }
    kept
}

/// Concatenating node sequences concatenates their ghost forests.
pub proof fn lemma_forest_of_concat(a: Seq<FsNode>, b: Seq<FsNode>)
    ensures
        forest_of(a + b) == forest_of(a) + forest_of(b),
{
    lemma_forest_of(a);
    lemma_forest_of(b);
    lemma_forest_of(a + b);
    assert(forest_of(a + b) =~= forest_of(a) + forest_of(b));
}

} // verus!
