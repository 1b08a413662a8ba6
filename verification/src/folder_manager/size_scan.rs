//! Measuring large folders in the background.

#![verifier::loop_isolation(false)]

use vstd::prelude::*;

use crate::list::Queue;
use crate::models::{LargeFolder, LargeFolderSizeEvent, LargeFolderType};
use crate::text;

verus! {

pub open spec fn is_app_data() -> spec_fn(LargeFolder) -> bool {
    |folder: LargeFolder| folder.folder_type == LargeFolderType::AppData
}

pub open spec fn is_no_app_data() -> spec_fn(LargeFolder) -> bool {
    |folder: LargeFolder| folder.folder_type != LargeFolderType::AppData
}

/// The folders that are measured when the page is opened: all but those of
/// applications.
pub fn start_folder_size_scan(folders: Vec<LargeFolder>) -> (r: Vec<LargeFolder>)
    ensures
        r@ == folders@.filter(is_no_app_data()),
{
    let ghost all = folders@;
    let mut rest = Queue::of(folders);
    let mut r: Vec<LargeFolder> = Vec::new();
    let ghost mut n: int = 0;
    proof {
        reveal(Seq::filter);
    }
    assert(rest@ =~= all.skip(0));
    assert(r@ =~= all.take(0).filter(is_no_app_data()));
    while rest.len() > 0
        invariant
            0 <= n <= all.len(),
            rest@ == all.skip(n),
            r@ == all.take(n).filter(is_no_app_data()),
        decreases rest@.len(),
    {
        let one = rest.take_first();
        assert(one == all[n]);
        assert(rest@ =~= all.skip(n + 1));
        assert(all.take(n + 1).drop_last() =~= all.take(n));
        proof {
            reveal(Seq::filter);
        }
        if one.folder_type != LargeFolderType::AppData {
            r.push(one);
        }
        proof {
            n = n + 1;
        }
    }
    assert(all.take(n) =~= all);
    r
}

/// The folders that are measured when the user asks for it: those of
/// applications.
pub fn start_app_data_size_scan(folders: Vec<LargeFolder>) -> (r: Vec<LargeFolder>)
    ensures
        r@ == folders@.filter(is_app_data()),
{
    let ghost all = folders@;
    let mut rest = Queue::of(folders);
    let mut r: Vec<LargeFolder> = Vec::new();
    let ghost mut n: int = 0;
    proof {
        reveal(Seq::filter);
    }
    assert(rest@ =~= all.skip(0));
    assert(r@ =~= all.take(0).filter(is_app_data()));
    while rest.len() > 0
        invariant
            0 <= n <= all.len(),
            rest@ == all.skip(n),
            r@ == all.take(n).filter(is_app_data()),
        decreases rest@.len(),
    {
        let one = rest.take_first();
        assert(one == all[n]);
        assert(rest@ =~= all.skip(n + 1));
        assert(all.take(n + 1).drop_last() =~= all.take(n));
        proof {
            reveal(Seq::filter);
        }
        if one.folder_type == LargeFolderType::AppData {
            r.push(one);
        }
        proof {
            n = n + 1;
        }
    }
    assert(all.take(n) =~= all);
    r
}

/// Every folder is measured by exactly one of the two scans.
pub proof fn law_each_folder_is_measured_by_one_scan(folders: Seq<LargeFolder>, i: int)
    requires
        0 <= i < folders.len(),
    ensures
        folders.filter(is_app_data()).contains(folders[i]) != folders.filter(
            is_no_app_data(),
        ).contains(folders[i]),
{
    let folder = folders[i];
    if folder.folder_type == LargeFolderType::AppData {
        folders.lemma_filter_contains(is_app_data(), i);
        if folders.filter(is_no_app_data()).contains(folder) {
            let j = choose|j: int|
                0 <= j < folders.filter(is_no_app_data()).len() && folders.filter(
                    is_no_app_data(),
                )[j] == folder;
            folders.lemma_filter_pred(is_no_app_data(), j);
        }
    } else {
        folders.lemma_filter_contains(is_no_app_data(), i);
        if folders.filter(is_app_data()).contains(folder) {
            let j = choose|j: int|
                0 <= j < folders.filter(is_app_data()).len() && folders.filter(is_app_data())[j]
                    == folder;
            folders.lemma_filter_pred(is_app_data(), j);
        }
    }
}

/// The directory that is measured for a folder: where a link stands in its
/// place, the link's target; absent where there is none.
pub open spec fn measured_path(folder: LargeFolder) -> Option<Seq<char>> {
    if !folder.exists {
        None
    } else if folder.is_junction {
        text::view_of(folder.junction_target)
    } else {
        Some(folder.path@)
    }
}

/// The directory that is measured for a folder.
pub fn scan_path(folder: &LargeFolder) -> (r: Option<String>)
    ensures
        text::view_of(r) == measured_path(*folder),
{
    if !folder.exists {
        return None;
    }
    if folder.is_junction {
        return match &folder.junction_target {
            Some(target) => Some(target.clone()),
            None => None,
        };
    }
    Some(folder.path.clone())
}

/// The sum of sizes.
pub open spec fn total_of(sizes: Seq<u64>) -> nat
    decreases sizes.len(),
{
    if sizes.len() == 0 {
        0
    } else {
        total_of(sizes.drop_last()) + sizes.last() as nat
    }
}

/// The sum of the sizes of a directory's files, or the largest number that can
/// be written where the sum is larger.
pub fn calculate_directory_size(sizes: &Vec<u64>) -> (r: u64)
    ensures
        r == if total_of(sizes@) <= u64::MAX {
            total_of(sizes@) as int
        } else {
            u64::MAX as int
        },
{
    let mut total: u64 = 0;
    let mut i: usize = 0;
    assert(sizes@.take(0) =~= seq![]);
    while i < sizes.len()
        invariant
            i <= sizes@.len(),
            total == if total_of(sizes@.take(i as int)) <= u64::MAX {
                total_of(sizes@.take(i as int)) as int
            } else {
                u64::MAX as int
            },
        decreases sizes@.len() - i,
    {
        assert(sizes@.take(i + 1).drop_last() =~= sizes@.take(i as int));
        total = total.saturating_add(sizes[i]);
        i = i + 1;
    }
    assert(sizes@.take(i as int) =~= sizes@);
    total
}

/// The size of a folder: that of its directory, and none where there is none.
/// `sizes` are those of the files in it; they are absent where its path is no
/// directory.
pub fn folder_size(folder: &LargeFolder, sizes: &Option<Vec<u64>>) -> (r: u64)
    ensures
        r == match (measured_path(*folder), *sizes) {
            (Some(path), Some(sizes)) => if total_of(sizes@) <= u64::MAX {
                total_of(sizes@) as int
            } else {
                u64::MAX as int
            },
            _ => 0,
        },
{
    if scan_path(folder).is_none() {
        return 0;
    }
    match sizes {
        Some(sizes) => calculate_directory_size(sizes),
        None => 0,
    }
}

/// What is announced of a folder's size.
pub fn size_event(folder: &LargeFolder, size: u64, scan_id: &Option<String>) -> (r:
    LargeFolderSizeEvent)
    ensures
        r.folder_id@ == folder.id@,
        r.size == size,
        text::view_of(r.scan_id) == text::view_of(*scan_id),
{
    LargeFolderSizeEvent {
        folder_id: folder.id.clone(),
        size,
        scan_id: match scan_id {
            Some(id) => Some(id.clone()),
            None => None,
        },
    }
}

} // verus!
