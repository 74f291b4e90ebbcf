//! The two pure decision functions of the engine: case-insensitive set
//! lookup (used both for exclusion and for patterns) and the per-entry match
//! decision.

use vstd::prelude::*;
use crate::config::{EntryType, Kind};
use crate::text::{eq_ci, ext_of, lower_of, lowercase};

verus! {

/// Case-insensitive set membership: some element of `list` equals `x` once
/// both are lowercased.
pub open spec fn in_ci(list: Seq<Seq<char>>, x: Seq<char>) -> bool {
    exists|i: int| 0 <= i < list.len() && eq_ci(list[i], x)
}

/// The match decision for one entry of observed type `entry`: a Folder rule
/// matches directories by base name, a File rule matches regular files by
/// extension (a file without one never matches), and an entry whose type
/// does not correspond to the rule's kind never matches.
pub open spec fn entry_matches(
    name: Seq<char>,
    entry: EntryType,
    patterns: Seq<Seq<char>>,
    kind: Kind,
) -> bool {
    if kind == Kind::Folder && entry == EntryType::Directory {
        in_ci(patterns, name)
    } else if kind == Kind::File && entry == EntryType::Regular {
        match ext_of(name) {
            Some(e) => in_ci(patterns, e),
            None => false,
        }
    } else {
        false
    }
}

/// Looks `item` up in `list`, comparing case-insensitively, and returns the
/// first position whose element matches.
pub fn find(item: &str, list: &Vec<String>) -> (r: Option<usize>)
    ensures
        r is Some <==> in_ci(list.deep_view(), item@),
        match r {
            Some(i) => i < list@.len() && eq_ci(list@[i as int]@, item@) && forall|j: int|
                0 <= j < i ==> !eq_ci(list@[j]@, item@),
            None => true,
        },
{
    let item_l = lowercase(item);
    let n = list.len();
    let mut j: usize = 0;
    while j < n
        invariant
            n == list@.len(),
            j <= n,
            item_l@ == lower_of(item@),
            forall|k: int| 0 <= k < j ==> !eq_ci(list@[k]@, item@),
        decreases n - j,
    {
        let cand = lowercase(list[j].as_str());
        if cand == item_l {
            proof {
                assert(list.deep_view()[j as int] == list@[j as int]@);
                assert(eq_ci(list.deep_view()[j as int], item@));
            }
            return Some(j);
        }
        j += 1;
    }
    proof {
        assert(forall|k: int|
            0 <= k < list.deep_view().len() ==> list.deep_view()[k] == list@[k]@);
    }
    None
}

/// The Matcher: decides whether one entry, known by its base name and its
/// observed filesystem type, is matched by the rule's pattern set, and
/// returns the position of the pattern that matched.
pub fn pattern_check(
    name: &String,
    entry: &EntryType,
    patterns: &Vec<String>,
    kind: &Kind,
) -> (r: Option<usize>)
    ensures
        r is Some <==> entry_matches(name@, *entry, patterns.deep_view(), *kind),
        match r {
            Some(i) => {
                let key = if *kind == Kind::Folder {
                    name@
                } else {
                    ext_of(name@)->Some_0
                };
                i < patterns@.len() && eq_ci(patterns@[i as int]@, key) && forall|j: int|
                    0 <= j < i ==> !eq_ci(patterns@[j]@, key)
            },
            None => true,
        },
{
    if *kind == Kind::Folder && *entry == EntryType::Directory {
        find(name.as_str(), patterns)
    } else if *kind == Kind::File && *entry == EntryType::Regular {
        match crate::text::extension(name.as_str()) {
            Some(e) => find(e.as_str(), patterns),
            None => None,
        }
    } else {
        None
    }
}

} // verus!
