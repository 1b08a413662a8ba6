//! Files that other programs hold open.

#![verifier::loop_isolation(false)]

use vstd::prelude::*;

use crate::list;
use crate::path;
use crate::text;

verus! {

/// How many locked files are listed.
pub const LOCKED_FILES_LISTED: usize = 10;

/// Whether the error of an exclusive open means that the file is in use:
/// a sharing violation or denied access.
pub fn is_lock_error(code: i32) -> (r: bool)
    ensures
        r == (code == 32 || code == 5),
{
    code == 32 || code == 5
}

/// How a locked file of a directory is listed: by its path below the directory.
pub open spec fn listed_name(file: Seq<char>, dir: Seq<char>) -> Seq<char> {
    if path::lies_in(file, dir) {
        path::rest_below(file, dir)
    } else {
        file
    }
}

/// How a locked file of a directory is listed.
pub fn listed_path(file: &str, dir: &str) -> (r: String)
    ensures
        r@ == listed_name(file@, dir@),
{
    match path::strip(file, dir) {
        Some(rest) => rest,
        None => file.to_owned(),
    }
}

/// The list after one more locked file: nothing is added once ten files are
/// listed.
pub open spec fn with_locked(files: Seq<Seq<char>>, file: Seq<char>) -> Seq<Seq<char>> {
    if files.len() >= LOCKED_FILES_LISTED {
        files
    } else {
        files.push(file)
    }
}

/// Adds a locked file to the list. Whether the list is now complete is
/// returned.
pub fn add_locked(files: &mut Vec<String>, file: String) -> (r: bool)
    ensures
        text::texts(final(files)@) == with_locked(text::texts(old(files)@), file@),
        r == (final(files)@.len() >= LOCKED_FILES_LISTED),
{
    if files.len() < LOCKED_FILES_LISTED {
        proof {
            text::lemma_texts_push(files@, file);
        }
        files.push(file);
    }
    files.len() >= LOCKED_FILES_LISTED
}

/// The list after a number of locked files.
pub open spec fn all_locked(files: Seq<Seq<char>>) -> Seq<Seq<char>>
    decreases files.len(),
{
    if files.len() == 0 {
        seq![]
    } else {
        with_locked(all_locked(files.drop_last()), files.last())
    }
}

/// The locked files as they are reported: the first ten that were found, in
/// the order of texts, or a placeholder where the search was cancelled. None
/// is reported if and only if none was found.
pub fn check_directory_file_locks(locked: Vec<String>, cancelled: bool) -> (r: Vec<String>)
    ensures
        cancelled ==> text::texts(r@) == seq!["检测已取消"@],
        !cancelled ==> exists|listed: Seq<String>|
            text::texts(listed) == all_locked(text::texts(locked@)) && #[trigger] list::is_stable_sort(
                listed,
                r@,
            ),
        r@.len() <= LOCKED_FILES_LISTED,
        !cancelled ==> (r@.len() == 0 <==> locked@.len() == 0),
{
    if cancelled {
        let mut r: Vec<String> = Vec::new();
        r.push("检测已取消".to_owned());
        assert(text::texts(r@) =~= seq!["检测已取消"@]);
        return r;
    }
    let ghost whole = text::texts(locked@);
    let mut files: Vec<String> = Vec::new();
    let mut complete = false;
    let mut i: usize = 0;
    assert(whole.take(0) =~= seq![]);
    assert(text::texts(files@) =~= seq![]);
    while i < locked.len() && !complete
        invariant
            i <= locked@.len(),
            whole == text::texts(locked@),
            text::texts(files@) == all_locked(whole.take(i as int)),
            complete ==> files@.len() >= LOCKED_FILES_LISTED,
        decreases locked@.len() - i,
    {
        assert(whole.take(i + 1).drop_last() =~= whole.take(i as int));
        complete = add_locked(&mut files, locked[i].clone());
        i = i + 1;
    }
    proof {
        lemma_full_list_stays(whole, i as int);
        assert(whole.take(whole.len() as int) =~= whole);
        law_list_of_locked_files_is_short(whole);
    }
    list::stable_sort(files)
}

/// Once ten files are listed, the list stays as it is.
proof fn lemma_full_list_stays(files: Seq<Seq<char>>, n: int)
    requires
        0 <= n <= files.len(),
        n < files.len() ==> all_locked(files.take(n)).len() >= LOCKED_FILES_LISTED,
    ensures
        all_locked(files) == all_locked(files.take(n)),
    decreases files.len() - n,
{
    if n < files.len() {
        assert(files.take(n + 1).drop_last() =~= files.take(n));
        lemma_full_list_stays(files, n + 1);
    } else {
        assert(files.take(n) =~= files);
    }
}

/// However many files are locked, at most ten are listed, and those are the
/// first that were found.
pub proof fn law_list_of_locked_files_is_short(files: Seq<Seq<char>>)
    ensures
        all_locked(files).len() <= LOCKED_FILES_LISTED,
        files.len() <= LOCKED_FILES_LISTED ==> all_locked(files) == files,
        files.len() > LOCKED_FILES_LISTED ==> all_locked(files) == files.take(
            LOCKED_FILES_LISTED as int,
        ),
        files.len() > 0 ==> all_locked(files).len() > 0,
    decreases files.len(),
{
    if files.len() > 0 {
        law_list_of_locked_files_is_short(files.drop_last());
        assert(files =~= files.drop_last().push(files.last()));
        if files.len() > LOCKED_FILES_LISTED {
            assert(files.drop_last().take(LOCKED_FILES_LISTED as int) =~= files.take(
                LOCKED_FILES_LISTED as int,
            ));
            assert(files.drop_last().take(files.drop_last().len() as int) =~= files.drop_last());
        }
    } else {
        assert(files =~= seq![]);
    }
}

} // verus!
