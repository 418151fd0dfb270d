//! The directory listing: which entries are shown, how they are written, and
//! in what order.
//!
//! Folders come first, then tracks; each group is ordered by the lowercase
//! form of the name as written, and entries with equal keys keep the order
//! they came in.

use vstd::prelude::*;
use vstd::string::{StrSliceExecFns, StringExecFns};

verus! {

broadcast use vstd::seq_lib::group_to_multiset_ensures;

/// What the caller found an entry of a directory to be.
#[derive(Clone, Copy, Debug, PartialEq, Eq, Structural)]
pub enum EntryKind {
    Folder,
    /// A file with the track extension.
    Track,
    Other,
}

/// An entry of a directory: its file name and what it is.
pub struct DirEntry {
    pub name: String,
    pub kind: EntryKind,
}

/// The lowercase form of `s`, as `str::to_lowercase` gives it.
pub uninterp spec fn lower_of(s: Seq<char>) -> Seq<char>;

/// Relies on str::to_lowercase: the lowercase form depends on the characters alone.
#[verifier::external_body]
fn lowercase(s: &str) -> (r: String)
    ensures
        r@ == lower_of(s@),
{
    s.to_lowercase()
}

/// How an entry is listed: a folder with a trailing `/`, a track by its
/// name; anything else is not listed.
pub open spec fn listed_name(e: DirEntry) -> Option<Seq<char>> {
    match e.kind {
        EntryKind::Folder => Some(e.name@.push('/')),
        EntryKind::Track => Some(e.name@),
        EntryKind::Other => None,
    }
}

/// The listed names of `es`, in the order of `es`.
pub open spec fn listed(es: Seq<DirEntry>) -> Seq<Seq<char>>
    decreases es.len(),
{
    if es.len() == 0 {
        Seq::empty()
    } else {
        match listed_name(es.last()) {
            Some(n) => listed(es.drop_last()).push(n),
            None => listed(es.drop_last()),
        }
    }
}

/// Lexicographic order on characters by code point, which is the order of
/// `str`'s comparison.
pub open spec fn chars_le(a: Seq<char>, b: Seq<char>) -> bool
    decreases a.len(),
{
    if a.len() == 0 {
        true
    } else if b.len() == 0 {
        false
    } else if (a[0] as u32) != (b[0] as u32) {
        (a[0] as u32) < (b[0] as u32)
    } else {
        chars_le(a.drop_first(), b.drop_first())
    }
}

pub open spec fn is_folder_name(s: Seq<char>) -> bool {
    s.len() > 0 && s.last() == '/'
}

/// Whether listed name `a` may stand before listed name `b`: folders before
/// tracks, then by lowercase form.
pub open spec fn listed_before(a: Seq<char>, b: Seq<char>) -> bool {
    (is_folder_name(a) && !is_folder_name(b)) || (is_folder_name(a) == is_folder_name(b)
        && chars_le(lower_of(a), lower_of(b)))
}

pub proof fn lemma_chars_le_total(a: Seq<char>, b: Seq<char>)
    ensures
        chars_le(a, b) || chars_le(b, a),
    decreases a.len(),
{
    if a.len() > 0 && b.len() > 0 && (a[0] as u32) == (b[0] as u32) {
        lemma_chars_le_total(a.drop_first(), b.drop_first());
    }
}

pub proof fn lemma_chars_le_transitive(a: Seq<char>, b: Seq<char>, c: Seq<char>)
    requires
        chars_le(a, b),
        chars_le(b, c),
    ensures
        chars_le(a, c),
    decreases a.len(),
{
    if a.len() > 0 && b.len() > 0 && c.len() > 0 && (a[0] as u32) == (b[0] as u32) && (b[0] as u32) == (c[0] as u32) {
        lemma_chars_le_transitive(a.drop_first(), b.drop_first(), c.drop_first());
    }
}

/// The listing order is total: of two names, one may stand before the other.
pub proof fn lemma_listed_before_total(a: Seq<char>, b: Seq<char>)
    ensures
        listed_before(a, b) || listed_before(b, a),
{
    lemma_chars_le_total(lower_of(a), lower_of(b));
}

/// The listing order is transitive.
pub proof fn lemma_listed_before_transitive(a: Seq<char>, b: Seq<char>, c: Seq<char>)
    requires
        listed_before(a, b),
        listed_before(b, c),
    ensures
        listed_before(a, c),
{
    if is_folder_name(a) == is_folder_name(b) && is_folder_name(b) == is_folder_name(c) {
        lemma_chars_le_transitive(lower_of(a), lower_of(b), lower_of(c));
    }
}

/// `chars_le` on two strings.
fn chars_le_exec(a: &str, b: &str) -> (r: bool)
    ensures
        r == chars_le(a@, b@),
{
    let na = a.unicode_len();
    let nb = b.unicode_len();
    let mut i: usize = 0;
    assert(a@.skip(0) =~= a@);
    assert(b@.skip(0) =~= b@);
    while i < na && i < nb
        invariant
            na == a@.len(),
            nb == b@.len(),
            i <= na,
            i <= nb,
            chars_le(a@, b@) == chars_le(a@.skip(i as int), b@.skip(i as int)),
        decreases na - i,
    {
        let ca = a.get_char(i);
        let cb = b.get_char(i);
        assert(a@.skip(i as int)[0] == ca);
        assert(b@.skip(i as int)[0] == cb);
        if (ca as u32) != (cb as u32) {
            return (ca as u32) < (cb as u32);
        }
        assert(a@.skip(i as int).drop_first() =~= a@.skip(i + 1));
        assert(b@.skip(i as int).drop_first() =~= b@.skip(i + 1));
        i = i + 1;
    }
    i == na
}

/// The names to list for `entries`, in listing order: folders (written with
/// a trailing `/`) and tracks, each name once for each entry it stands for.
pub fn listing(entries: &Vec<DirEntry>) -> (r: Vec<String>)
    ensures
        r@.map_values(|s: String| s@).to_multiset() == listed(entries@).to_multiset(),
        forall|i: int, j: int| 0 <= i < j < r@.len() ==> listed_before(r@[i]@, r@[j]@),
{
    let mut names: Vec<String> = Vec::new();
    let mut lowers: Vec<String> = Vec::new();
    let mut folders: Vec<bool> = Vec::new();
    let mut i: usize = 0;
    proof {
        reveal_strlit("/");
    }
    while i < entries.len()
        invariant
            i <= entries@.len(),
            names@.len() == lowers@.len(),
            names@.len() == folders@.len(),
            forall|k: int| 0 <= k < names@.len() ==> (#[trigger] lowers@[k])@ == lower_of(names@[k]@),
            forall|k: int| 0 <= k < names@.len() ==> #[trigger] folders@[k] == is_folder_name(names@[k]@),
            names@.map_values(|s: String| s@).to_multiset() == listed(entries@.take(i as int)).to_multiset(),
            forall|a: int, b: int| 0 <= a < b < names@.len() ==> listed_before(names@[a]@, names@[b]@),
            "/"@ == seq!['/'],
        decreases entries@.len() - i,
    {
        let e = &entries[i];
        assert(entries@.take(i + 1).drop_last() =~= entries@.take(i as int));
        assert(entries@.take(i + 1).last() == *e);
        let name = match e.kind {
            EntryKind::Folder => Some(e.name.clone().concat("/")),
            EntryKind::Track => Some(e.name.clone()),
            EntryKind::Other => None,
        };
        if let Some(name) = name {
            assert(listed_name(*e) == Some(name@));
            let low = lowercase(name.as_str());
            let dir = is_folder_name_exec(name.as_str());
            let mut p: usize = 0;
            while p < names.len() && key_le(folders[p], lowers[p].as_str(), dir, low.as_str())
                invariant
                    p <= names@.len(),
                    names@.len() == lowers@.len(),
                    names@.len() == folders@.len(),
                    forall|k: int| 0 <= k < names@.len() ==> (#[trigger] lowers@[k])@ == lower_of(names@[k]@),
                    forall|k: int| 0 <= k < names@.len() ==> #[trigger] folders@[k] == is_folder_name(names@[k]@),
                    forall|k: int| 0 <= k < p ==> listed_before(#[trigger] names@[k]@, name@),
                    low@ == lower_of(name@),
                    dir == is_folder_name(name@),
                decreases names@.len() - p,
            {
                p = p + 1;
            }
            proof {
                if p < names@.len() {
                    lemma_listed_before_total(names@[p as int]@, name@);
                    assert forall|k: int| p <= k < names@.len() implies listed_before(name@, #[trigger] names@[k]@) by {
                        if k > p {
                            lemma_listed_before_transitive(name@, names@[p as int]@, names@[k]@);
                        }
                    }
                }
            }
            let ghost old_names = names@;
            names.insert(p, name);
            lowers.insert(p, low);
            folders.insert(p, dir);
            proof {
                assert(names@.map_values(|s: String| s@) =~= old_names.map_values(|s: String| s@).insert(p as int, names@[p as int]@));
                assert forall|k: int| 0 <= k < names@.len() implies (#[trigger] lowers@[k])@ == lower_of(names@[k]@) by {
                    if k > p { assert(names@[k] == old_names[k - 1]); }
                }
                assert forall|k: int| 0 <= k < names@.len() implies #[trigger] folders@[k] == is_folder_name(names@[k]@) by {
                    if k > p { assert(names@[k] == old_names[k - 1]); }
                }
                assert forall|a: int, b: int| 0 <= a < b < names@.len() implies listed_before(names@[a]@, names@[b]@) by {
                    if b < p {
                    } else if b == p {
                    } else if a < p {
                        assert(names@[b] == old_names[b - 1]);
                        lemma_listed_before_transitive(names@[a]@, names@[p as int]@, names@[b]@);
                    } else if a == p {
                        assert(names@[b] == old_names[b - 1]);
                    } else {
                        assert(names@[a] == old_names[a - 1]);
                        assert(names@[b] == old_names[b - 1]);
                    }
                }
            }
        }
        i = i + 1;
    }
    assert(entries@.take(i as int) =~= entries@);
    names
}

/// Whether a listed name stands for a folder.
fn is_folder_name_exec(s: &str) -> (r: bool)
    ensures
        r == is_folder_name(s@),
{
    let n = s.unicode_len();
    n > 0 && s.get_char(n - 1) == '/'
}

/// `listed_before` on names given by whether each is a folder and its
/// lowercase form.
fn key_le(a_dir: bool, a_low: &str, b_dir: bool, b_low: &str) -> (r: bool)
    ensures
        r == ((a_dir && !b_dir) || (a_dir == b_dir && chars_le(a_low@, b_low@))),
{
    if a_dir != b_dir {
        a_dir
    } else {
        chars_le_exec(a_low, b_low)
    }
}

} // verus!
