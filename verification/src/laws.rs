//! The engine's guarantees, stated and proved over the walk model.

use vstd::prelude::*;
use crate::config::Kind;
use crate::fsmodel::{Report, Tree};
use crate::walker::{
    forest_reports, tree_excluded, tree_matches, tree_reports, walk_forest, walk_tree,
};

verus! {

/// An entry whose name is in the exclusion set is never removed and never
/// recursed into: the walk keeps it untouched and reports only its
/// exclusion, whatever its name or extension would otherwise match.
pub proof fn lemma_exclusion_precedence(
    t: Tree,
    kind: Kind,
    patterns: Seq<Seq<char>>,
    exclude: Seq<Seq<char>>,
    dryrun: bool,
)
    requires
        tree_excluded(t, exclude),
    ensures
        walk_tree(t, kind, patterns, exclude) == seq![t],
        tree_reports(t, kind, patterns, exclude, dryrun) == seq![
            Report::Excluded { name: t.name() },
        ],
{
}

/// A File rule never removes a directory, even one whose name matches a
/// pattern: the walk keeps a directory of the same name. A Folder rule
/// never removes a file, even one whose extension matches: the walk keeps
/// the file untouched.
pub proof fn lemma_kind_discrimination(t: Tree, patterns: Seq<Seq<char>>, exclude: Seq<Seq<char>>)
    ensures
        t is Dir ==> walk_tree(t, Kind::File, patterns, exclude).len() == 1 && walk_tree(
            t,
            Kind::File,
            patterns,
            exclude,
        )[0] is Dir && walk_tree(t, Kind::File, patterns, exclude)[0].name() == t.name(),
        t is File ==> walk_tree(t, Kind::Folder, patterns, exclude) == seq![t],
{
}

/// A matched, unexcluded directory is removed wholesale: the walk drops it
/// and reports the directory alone — an intent line, and a completion line
/// unless the run is dry. No report line arises from its contents, which
/// are never separately evaluated.
pub proof fn lemma_matched_dir_opaque(
    t: Tree,
    kind: Kind,
    patterns: Seq<Seq<char>>,
    exclude: Seq<Seq<char>>,
    dryrun: bool,
)
    requires
        t is Dir,
        !tree_excluded(t, exclude),
        tree_matches(t, kind, patterns),
    ensures
        walk_tree(t, kind, patterns, exclude) == Seq::<Tree>::empty(),
        dryrun ==> tree_reports(t, kind, patterns, exclude, dryrun) == seq![
            Report::Removing { name: t.name() },
        ],
        !dryrun ==> tree_reports(t, kind, patterns, exclude, dryrun) == seq![
            Report::Removing { name: t.name() },
            Report::Removed { name: t.name() },
        ],
{
}

/// Under a File rule with an empty exclusion set, a directory all of whose
/// file children carry a matching extension is left with no file children:
/// after the walk, only directories remain at that level.
pub proof fn lemma_file_rule_clears_files(s: Seq<Tree>, patterns: Seq<Seq<char>>)
    requires
        forall|i: int| 0 <= i < s.len() && #[trigger] s[i] is File ==> tree_matches(
            s[i],
            Kind::File,
            patterns,
        ),
    ensures
        forall|j: int| 0 <= j < walk_forest(s, Kind::File, patterns, Seq::empty()).len()
            ==> #[trigger] walk_forest(s, Kind::File, patterns, Seq::empty())[j] is Dir,
    decreases s,
{
    let excl = Seq::<Seq<char>>::empty();
    if s.len() > 0 {
        let rest = s.subrange(1, s.len() as int);
        assert(forall|i: int| 0 <= i < rest.len() ==> rest[i] == s[i + 1]);
        lemma_file_rule_clears_files(rest, patterns);
        assert(!tree_excluded(s[0], excl));
        let w0 = walk_tree(s[0], Kind::File, patterns, excl);
        assert(forall|j: int| 0 <= j < w0.len() ==> #[trigger] w0[j] is Dir) by {
            if s[0] is File {
                assert(tree_matches(s[0], Kind::File, patterns));
                assert(w0 == Seq::<Tree>::empty());
            } else {
                assert(!tree_matches(s[0], Kind::File, patterns));
            }
        }
        assert(walk_forest(s, Kind::File, patterns, excl) == w0 + walk_forest(
            rest,
            Kind::File,
            patterns,
            excl,
        ));
    }
}

/// Whether one entry offers the rule nothing left to match: it is excluded,
/// or unmatched with the same holding below it when it is a directory.
spec fn clean_tree(
    t: Tree,
    kind: Kind,
    patterns: Seq<Seq<char>>,
    exclude: Seq<Seq<char>>,
) -> bool
    decreases t,
{
    if tree_excluded(t, exclude) {
        true
    } else {
        !tree_matches(t, kind, patterns) && match t {
            Tree::File { .. } => true,
            Tree::Dir { entries, .. } => clean_forest(entries, kind, patterns, exclude),
        }
    }
}

/// `clean_tree`, over every entry of a forest.
spec fn clean_forest(
    s: Seq<Tree>,
    kind: Kind,
    patterns: Seq<Seq<char>>,
    exclude: Seq<Seq<char>>,
) -> bool
    decreases s,
{
    if s.len() == 0 {
        true
    } else {
        clean_tree(s[0], kind, patterns, exclude) && clean_forest(
            s.subrange(1, s.len() as int),
            kind,
            patterns,
            exclude,
        )
    }
}

/// Whether a report sequence holds exclusion lines alone: nothing was (or
/// would be) removed.
pub open spec fn only_exclusion_reports(rs: Seq<Report>) -> bool {
    forall|i: int| 0 <= i < rs.len() ==> #[trigger] rs[i] is Excluded
}

proof fn lemma_clean_forest_singleton(
    t: Tree,
    kind: Kind,
    patterns: Seq<Seq<char>>,
    exclude: Seq<Seq<char>>,
)
    requires
        clean_tree(t, kind, patterns, exclude),
    ensures
        clean_forest(seq![t], kind, patterns, exclude),
{
    let s = seq![t];
    assert(s[0] == t);
    assert(s.subrange(1, s.len() as int) =~= Seq::<Tree>::empty());
    assert(clean_forest(s.subrange(1, s.len() as int), kind, patterns, exclude));
}

proof fn lemma_walk_tree_clean(
    t: Tree,
    kind: Kind,
    patterns: Seq<Seq<char>>,
    exclude: Seq<Seq<char>>,
)
    ensures
        clean_forest(walk_tree(t, kind, patterns, exclude), kind, patterns, exclude),
    decreases t,
{
    let w = walk_tree(t, kind, patterns, exclude);
    if tree_excluded(t, exclude) {
        assert(clean_tree(t, kind, patterns, exclude));
        lemma_clean_forest_singleton(t, kind, patterns, exclude);
    } else if tree_matches(t, kind, patterns) {
    } else {
        match t {
            Tree::File { .. } => {
                assert(clean_tree(t, kind, patterns, exclude));
                lemma_clean_forest_singleton(t, kind, patterns, exclude);
            },
            Tree::Dir { name, entries } => {
                lemma_walk_forest_clean(entries, kind, patterns, exclude);
                let d = Tree::Dir {
                    name,
                    entries: walk_forest(entries, kind, patterns, exclude),
                };
                assert(!tree_matches(d, kind, patterns));
                assert(clean_tree(d, kind, patterns, exclude));
                lemma_clean_forest_singleton(d, kind, patterns, exclude);
                assert(w == seq![d]);
            },
        }
    }
}

proof fn lemma_walk_forest_clean(
    s: Seq<Tree>,
    kind: Kind,
    patterns: Seq<Seq<char>>,
    exclude: Seq<Seq<char>>,
)
    ensures
        clean_forest(walk_forest(s, kind, patterns, exclude), kind, patterns, exclude),
    decreases s,
{
    if s.len() > 0 {
        let rest = s.subrange(1, s.len() as int);
        lemma_walk_tree_clean(s[0], kind, patterns, exclude);
        lemma_walk_forest_clean(rest, kind, patterns, exclude);
        lemma_clean_forest_concat(
            walk_tree(s[0], kind, patterns, exclude),
            walk_forest(rest, kind, patterns, exclude),
            kind,
            patterns,
            exclude,
        );
    }
}

proof fn lemma_clean_forest_concat(
    a: Seq<Tree>,
    b: Seq<Tree>,
    kind: Kind,
    patterns: Seq<Seq<char>>,
    exclude: Seq<Seq<char>>,
)
    requires
        clean_forest(a, kind, patterns, exclude),
        clean_forest(b, kind, patterns, exclude),
    ensures
        clean_forest(a + b, kind, patterns, exclude),
    decreases a,
{
    if a.len() == 0 {
        assert(a + b =~= b);
    } else {
        lemma_clean_forest_concat(a.subrange(1, a.len() as int), b, kind, patterns, exclude);
        assert((a + b)[0] == a[0]);
        assert((a + b).subrange(1, (a + b).len() as int) =~= a.subrange(1, a.len() as int) + b);
    }
}

proof fn lemma_clean_tree_fixpoint(
    t: Tree,
    kind: Kind,
    patterns: Seq<Seq<char>>,
    exclude: Seq<Seq<char>>,
    dryrun: bool,
)
    requires
        clean_tree(t, kind, patterns, exclude),
    ensures
        walk_tree(t, kind, patterns, exclude) == seq![t],
        only_exclusion_reports(tree_reports(t, kind, patterns, exclude, dryrun)),
    decreases t,
{
    if tree_excluded(t, exclude) {
    } else {
        match t {
            Tree::File { .. } => {},
            Tree::Dir { name, entries } => {
                lemma_clean_forest_fixpoint(entries, kind, patterns, exclude, dryrun);
                assert(Tree::Dir {
                    name,
                    entries: walk_forest(entries, kind, patterns, exclude),
                } == t);
            },
        }
    }
}

proof fn lemma_clean_forest_fixpoint(
    s: Seq<Tree>,
    kind: Kind,
    patterns: Seq<Seq<char>>,
    exclude: Seq<Seq<char>>,
    dryrun: bool,
)
    requires
        clean_forest(s, kind, patterns, exclude),
    ensures
        walk_forest(s, kind, patterns, exclude) == s,
        only_exclusion_reports(forest_reports(s, kind, patterns, exclude, dryrun)),
    decreases s,
{
    if s.len() > 0 {
        let rest = s.subrange(1, s.len() as int);
        lemma_clean_tree_fixpoint(s[0], kind, patterns, exclude, dryrun);
        lemma_clean_forest_fixpoint(rest, kind, patterns, exclude, dryrun);
        assert(walk_forest(s, kind, patterns, exclude) =~= s);
        let r0 = tree_reports(s[0], kind, patterns, exclude, dryrun);
        let rr = forest_reports(rest, kind, patterns, exclude, dryrun);
        assert(forest_reports(s, kind, patterns, exclude, dryrun) == r0 + rr);
        assert forall|i: int|
            0 <= i < (r0 + rr).len() implies #[trigger] (r0 + rr)[i] is Excluded by {
            if i < r0.len() {
                assert((r0 + rr)[i] == r0[i]);
            } else {
                assert((r0 + rr)[i] == rr[i - r0.len()]);
            }
        }
    }
}

/// Running the same rule twice in removal mode removes nothing the second
/// time: the second walk returns the first walk's result unchanged, and its
/// report lines hold no intent and no completion — at most exclusions.
pub proof fn lemma_idempotent(
    s: Seq<Tree>,
    kind: Kind,
    patterns: Seq<Seq<char>>,
    exclude: Seq<Seq<char>>,
)
    ensures
        walk_forest(walk_forest(s, kind, patterns, exclude), kind, patterns, exclude)
            == walk_forest(s, kind, patterns, exclude),
        only_exclusion_reports(
            forest_reports(walk_forest(s, kind, patterns, exclude), kind, patterns, exclude, false),
        ),
{
    lemma_walk_forest_clean(s, kind, patterns, exclude);
    lemma_clean_forest_fixpoint(
        walk_forest(s, kind, patterns, exclude),
        kind,
        patterns,
        exclude,
        false,
    );
}

} // verus!
