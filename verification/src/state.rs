//! The persisted list of library folders.
use vstd::prelude::*;

use crate::text::str_equal;

verus! {

/// The folders after `path` is added: unchanged when it is already listed,
/// with `path` at the end otherwise.
pub open spec fn with_folder(folders: Seq<Seq<char>>, path: Seq<char>) -> Seq<Seq<char>> {
    if folders.contains(path) {
        folders
    } else {
        folders.push(path)
    }
}

/// The folders other than `path`, in their order.
pub open spec fn without_folder(folders: Seq<Seq<char>>, path: Seq<char>) -> Seq<Seq<char>>
    decreases folders.len(),
{
    if folders.len() == 0 {
        folders
    } else if folders.last() == path {
        without_folder(folders.drop_last(), path)
    } else {
        without_folder(folders.drop_last(), path).push(folders.last())
    }
}

/// Adds `path` to the library folders unless it is already listed.
pub fn add_library_folder(folders: &mut Vec<String>, path: String)
    ensures
        final(folders).deep_view() == with_folder(old(folders).deep_view(), path@),
{
    let n = folders.len();
    let mut i: usize = 0;
    while i < n
        invariant
            n == folders@.len(),
            i <= n,
            forall|j: int| 0 <= j < i ==> folders.deep_view()[j] != path@,
        decreases n - i,
    {
        if str_equal(folders[i].as_str(), path.as_str()) {
            assert(folders.deep_view()[i as int] == path@);
            return;
        }
        i = i + 1;
    }
    let ghost before = folders.deep_view();
    folders.push(path);
    assert(folders.deep_view() =~= before.push(path@));
}

/// Removes every entry equal to `path` from the library folders.
pub fn remove_library_folder(folders: &mut Vec<String>, path: &str)
    ensures
        final(folders).deep_view() == without_folder(old(folders).deep_view(), path@),
{
    let n = folders.len();
    let mut kept: Vec<String> = Vec::new();
    let mut i: usize = 0;
    while i < n
        invariant
            n == folders@.len(),
            i <= n,
            kept.deep_view() == without_folder(folders.deep_view().subrange(0, i as int), path@),
        decreases n - i,
    {
        assert(folders.deep_view().subrange(0, i + 1).drop_last() =~= folders.deep_view().subrange(
            0,
            i as int,
        ));
        if !str_equal(folders[i].as_str(), path) {
            let ghost before = kept.deep_view();
            kept.push(folders[i].clone());
            assert(kept.deep_view() =~= before.push(folders.deep_view()[i as int]));
        }
        i = i + 1;
    }
    assert(folders.deep_view().subrange(0, n as int) =~= folders.deep_view());
    *folders = kept;
}

proof fn lemma_without_absent(folders: Seq<Seq<char>>, path: Seq<char>)
    requires
        !folders.contains(path),
    ensures
        without_folder(folders, path) == folders,
    decreases folders.len(),
{
    if folders.len() > 0 {
        assert(!folders.drop_last().contains(path)) by {
            if folders.drop_last().contains(path) {
                let j = choose|j: int| 0 <= j < folders.drop_last().len() && folders.drop_last()[j] == path;
                assert(folders[j] == path);
            }
        }
        lemma_without_absent(folders.drop_last(), path);
        assert(folders.last() != path) by {
            if folders.last() == path {
                assert(folders[folders.len() - 1] == path);
            }
        }
        assert(folders.drop_last().push(folders.last()) =~= folders);
    }
}

proof fn lemma_push_contains(s: Seq<Seq<char>>, x: Seq<char>, o: Seq<char>)
    ensures
        s.push(x).contains(o) <==> (s.contains(o) || x == o),
{
    if s.contains(o) {
        let j = choose|j: int| 0 <= j < s.len() && s[j] == o;
        assert(s.push(x)[j] == o);
    }
    if x == o {
        assert(s.push(x)[s.len() as int] == o);
    }
    if s.push(x).contains(o) {
        let j = choose|j: int| 0 <= j < s.push(x).len() && s.push(x)[j] == o;
        if j < s.len() {
            assert(s[j] == o);
        }
    }
}

proof fn lemma_without_contains(folders: Seq<Seq<char>>, path: Seq<char>, other: Seq<char>)
    ensures
        without_folder(folders, path).contains(other) <==> (other != path && folders.contains(other)),
    decreases folders.len(),
{
    if folders.len() > 0 {
        let d = folders.drop_last();
        let l = folders.last();
        lemma_without_contains(d, path, other);
        assert(folders =~= d.push(l));
        lemma_push_contains(d, l, other);
        if l != path {
            lemma_push_contains(without_folder(d, path), l, other);
        }
    }
}

/// Adding a folder twice is the same as adding it once.
pub proof fn law_add_folder_is_idempotent(folders: Seq<Seq<char>>, path: Seq<char>)
    ensures
        with_folder(with_folder(folders, path), path) == with_folder(folders, path),
{
    if !folders.contains(path) {
        assert(folders.push(path)[folders.len() as int] == path);
    }
}

/// An added folder is listed.
pub proof fn law_added_folder_is_listed(folders: Seq<Seq<char>>, path: Seq<char>)
    ensures
        with_folder(folders, path).contains(path),
{
    if !folders.contains(path) {
        assert(folders.push(path)[folders.len() as int] == path);
    }
}

/// A removed folder is no longer listed, and every other folder stays
/// listed exactly when it was.
pub proof fn law_removed_folder_is_gone(folders: Seq<Seq<char>>, path: Seq<char>, other: Seq<char>)
    ensures
        !without_folder(folders, path).contains(path),
        other != path ==> (without_folder(folders, path).contains(other) <==> folders.contains(
            other,
        )),
{
    lemma_without_contains(folders, path, path);
    lemma_without_contains(folders, path, other);
}

/// Removing a folder undoes adding it, when it was not listed before.
pub proof fn law_remove_undoes_add(folders: Seq<Seq<char>>, path: Seq<char>)
    requires
        !folders.contains(path),
    ensures
        without_folder(with_folder(folders, path), path) == folders,
{
    let added = folders.push(path);
    assert(added.drop_last() =~= folders);
    assert(added.last() == path);
    lemma_without_absent(folders, path);
}

/// Adding folders never lists one twice.
pub proof fn law_added_folders_stay_distinct(folders: Seq<Seq<char>>, path: Seq<char>)
    requires
        folders.no_duplicates(),
    ensures
        with_folder(folders, path).no_duplicates(),
{
    if !folders.contains(path) {
        let added = folders.push(path);
        assert forall|i: int, j: int|
            0 <= i < added.len() && 0 <= j < added.len() && i != j implies added[i] != added[j] by {
            if i == folders.len() as int {
                assert(folders[j] == added[j]);
            } else if j == folders.len() as int {
                assert(folders[i] == added[i]);
            }
        }
    }
}

} // verus!
