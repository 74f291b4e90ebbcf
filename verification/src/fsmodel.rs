//! The modeled filesystem the engine is verified against: a finite tree of
//! named files and directories, its ghost view, and the report lines a run
//! emits.

use vstd::prelude::*;

verus! {

/// One entry of the modeled filesystem: a regular file, or a directory with
/// its children in enumeration order.
#[derive(Debug, PartialEq)]
pub enum FsNode {
    File { name: String },
    Dir { name: String, entries: Vec<FsNode> },
}

/// The ghost shape of an `FsNode`: the same tree over character sequences.
pub enum Tree {
    File { name: Seq<char> },
    Dir { name: Seq<char>, entries: Seq<Tree> },
}

impl Tree {
    /// The entry's base name.
    pub open spec fn name(self) -> Seq<char> {
        match self {
            Tree::File { name } => name,
            Tree::Dir { name, .. } => name,
        }
    }
}

impl FsNode {
    /// The entry's base name.
    pub fn name(&self) -> (r: &String)
        ensures
            r@ == self@.name(),
    {
        match self {
            FsNode::File { name } => name,
            FsNode::Dir { name, .. } => name,
        }
    }
}

/// The ghost tree an `FsNode` stands for.
pub open spec fn tree_of(n: FsNode) -> Tree
    decreases n,
{
    match n {
        FsNode::File { name } => Tree::File { name: name@ },
        FsNode::Dir { name, entries } => Tree::Dir {
            name: name@,
            entries: forest_of(entries@),
        },
    }
}

/// The ghost trees a sequence of nodes stands for, in order.
pub open spec fn forest_of(s: Seq<FsNode>) -> Seq<Tree>
    decreases s,
{
    if s.len() == 0 {
        Seq::empty()
    } else {
        seq![tree_of(s[0])] + forest_of(s.subrange(1, s.len() as int))
    }
}

impl View for FsNode {
    type V = Tree;

    open spec fn view(&self) -> Tree {
        tree_of(*self)
    }
}

/// One report line of a run: an entry suppressed by the exclusion set, an
/// intent to remove a matched entry, or a completed removal.
#[derive(Debug, PartialEq)]
pub enum Event {
    Excluded { name: String },
    Removing { name: String },
    Removed { name: String },
}

/// The ghost form of an `Event`.
pub enum Report {
    Excluded { name: Seq<char> },
    Removing { name: Seq<char> },
    Removed { name: Seq<char> },
}

/// The ghost report an `Event` stands for.
pub open spec fn report_of(e: Event) -> Report {
    match e {
        Event::Excluded { name } => Report::Excluded { name: name@ },
        Event::Removing { name } => Report::Removing { name: name@ },
        Event::Removed { name } => Report::Removed { name: name@ },
    }
}

impl View for Event {
    type V = Report;

    open spec fn view(&self) -> Report {
        report_of(*self)
    }
}

/// The ghost reports a sequence of events stands for, in order.
pub open spec fn reports_of(s: Seq<Event>) -> Seq<Report> {
    Seq::new(s.len(), |i: int| report_of(s[i]))
}

/// `forest_of` maps the sequence elementwise.
pub proof fn lemma_forest_of(s: Seq<FsNode>)
    ensures
        forest_of(s).len() == s.len(),
        forall|i: int| 0 <= i < s.len() ==> #[trigger] forest_of(s)[i] == tree_of(s[i]),
    decreases s,
{
    if s.len() > 0 {
        lemma_forest_of(s.subrange(1, s.len() as int));
    }
}

/// Appending to a sequence of nodes appends the ghost trees.
pub proof fn lemma_forest_of_push(s: Seq<FsNode>, n: FsNode)
    ensures
        forest_of(s.push(n)) == forest_of(s).push(tree_of(n)),
    decreases s,
{
    lemma_forest_of(s.push(n));
    lemma_forest_of(s);
    assert(forest_of(s.push(n)) =~= forest_of(s).push(tree_of(n)));
}

} // verus!
