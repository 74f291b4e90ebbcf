//! Case folding and the character-level helpers that pattern matching and
//! path handling are built on.

use vstd::prelude::*;
use vstd::string::StrSliceExecFns;

verus! {

/// What `str::to_lowercase` returns for a given character sequence; the
/// result is a function of the characters alone.
pub uninterp spec fn lower_of(s: Seq<char>) -> Seq<char>;

/// Case-insensitive equality: two character sequences whose lowercase forms
/// coincide.
pub open spec fn eq_ci(a: Seq<char>, b: Seq<char>) -> bool {
    lower_of(a) == lower_of(b)
}

/// Relies on `str::to_lowercase` to produce the lowercase form of `s`.
#[verifier::external_body]
pub fn lowercase(s: &str) -> (r: String)
    ensures
        r@ == lower_of(s@),
{
    s.to_lowercase()
}

/// The index of the last occurrence of `c` in `s`, or -1 when `c` does not
/// occur.
pub open spec fn last_index_of(s: Seq<char>, c: char) -> int
    decreases s.len(),
{
    if s.len() == 0 {
        -1
    } else if s[s.len() - 1] == c {
        s.len() - 1
    } else {
        last_index_of(s.drop_last(), c)
    }
}

/// `last_index_of` names the greatest index holding `c`, and -1 exactly when
/// no index does.
pub proof fn lemma_last_index_of(s: Seq<char>, c: char)
    ensures
        -1 <= last_index_of(s, c) < s.len(),
        last_index_of(s, c) >= 0 ==> s[last_index_of(s, c)] == c,
        forall|j: int| last_index_of(s, c) < j < s.len() ==> s[j] != c,
    decreases s.len(),
{
    if s.len() > 0 && s[s.len() - 1] != c {
        lemma_last_index_of(s.drop_last(), c);
        assert forall|j: int| last_index_of(s, c) < j < s.len() implies s[j] != c by {
            if j < s.len() - 1 {
                assert(s.drop_last()[j] == s[j]);
            }
        }
    }
}

/// Any index that holds `c` with none after it is the last index of `c`.
pub proof fn lemma_last_index_of_unique(s: Seq<char>, c: char, i: int)
    requires
        0 <= i < s.len(),
        s[i] == c,
        forall|j: int| i < j < s.len() ==> s[j] != c,
    ensures
        last_index_of(s, c) == i,
{
    lemma_last_index_of(s, c);
    let l = last_index_of(s, c);
    if l < i {
        assert(s[i] != c);
    }
    if l > i {
        assert(s[l] != c);
    }
}

/// The base name of a '/'-separated path: the text after the last '/'.
pub open spec fn base_of(path: Seq<char>) -> Seq<char> {
    path.subrange(last_index_of(path, '/') + 1, path.len() as int)
}

/// The extension of an entry name: the text after the last '.', unless that
/// dot leads the name; a name without such a dot has no extension.
pub open spec fn ext_of(name: Seq<char>) -> Option<Seq<char>> {
    let d = last_index_of(name, '.');
    if d >= 1 {
        Some(name.subrange(d + 1, name.len() as int))
    } else {
        None
    }
}

/// The extension of the entry a '/'-separated path leads to.
pub open spec fn path_ext(path: Seq<char>) -> Option<Seq<char>> {
    ext_of(base_of(path))
}

/// Scans `s` from the end for the last occurrence of `c`.
pub fn find_last(s: &str, c: char) -> (r: Option<usize>)
    ensures
        match r {
            Some(i) => i == last_index_of(s@, c) && i < s@.len(),
            None => last_index_of(s@, c) == -1,
        },
{
    let n = s.unicode_len();
    let mut i: usize = n;
    while i > 0
        invariant
            n == s@.len(),
            i <= n,
            forall|j: int| i <= j < s@.len() ==> s@[j] != c,
        decreases i,
    {
        i = i - 1;
        if s.get_char(i) == c {
            proof {
                lemma_last_index_of_unique(s@, c, i as int);
            }
            return Some(i);
        }
    }
    proof {
        lemma_last_index_of(s@, c);
        if last_index_of(s@, c) >= 0 {
            assert(s@[last_index_of(s@, c)] != c);
        }
    }
    None
}

/// The base name of a '/'-separated path, as the text after its last '/'.
pub fn base_name(path: &str) -> (r: String)
    ensures
        r@ == base_of(path@),
{
    let n = path.unicode_len();
    match find_last(path, '/') {
        Some(i) => path.substring_char(i + 1, n).to_owned(),
        None => {
            let r = path.to_owned();
            proof {
                assert(r@ =~= base_of(path@));
            }
            r
        },
    }
}

/// The extension of an entry name: the text after the last '.', unless that
/// dot leads the name.
pub fn extension(name: &str) -> (r: Option<String>)
    ensures
        match r {
            Some(e) => ext_of(name@) == Some(e@),
            None => ext_of(name@) is None,
        },
{
    let n = name.unicode_len();
    match find_last(name, '.') {
        Some(d) => {
            if d >= 1 {
                Some(name.substring_char(d + 1, n).to_owned())
            } else {
                None
            }
        },
        None => None,
    }
}

} // verus!
