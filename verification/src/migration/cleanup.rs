//! Deleting directories, and the backups that earlier migrations left behind.

#![verifier::loop_isolation(false)]

use vstd::prelude::*;

use crate::text;

verus! {

/// A file or directory that could not be deleted, and why.
#[derive(Debug)]
pub struct RemovalFailure {
    pub path: String,
    pub reason: String,
}

/// The first file and the first directory that could not be deleted.
#[derive(Debug)]
pub struct RemovalFailures {
    pub file: Option<RemovalFailure>,
    pub directory: Option<RemovalFailure>,
}

impl RemovalFailures {
    pub fn new() -> (r: Self)
        ensures
            r.file is None,
            r.directory is None,
    {
        RemovalFailures { file: None, directory: None }
    }

    /// Notes a file that could not be deleted, unless one was noted before.
    pub fn note_file(&mut self, failure: RemovalFailure)
        ensures
            final(self).file == (if old(self).file is Some {
                old(self).file
            } else {
                Some(failure)
            }),
            final(self).directory == old(self).directory,
    {
        if self.file.is_none() {
            self.file = Some(failure);
        }
    }

    /// Notes a directory that could not be deleted, unless one was noted before.
    pub fn note_directory(&mut self, failure: RemovalFailure)
        ensures
            final(self).directory == (if old(self).directory is Some {
                old(self).directory
            } else {
                Some(failure)
            }),
            final(self).file == old(self).file,
    {
        if self.directory.is_none() {
            self.directory = Some(failure);
        }
    }

    pub open spec fn description(self, root: Seq<char>) -> Seq<char> {
        match (self.file, self.directory) {
            (Some(file), _) => "文件删除失败（被占用："@ + file.path@ + "，原因："@ + file.reason@
                + "）；根目录删除失败："@ + root,
            (None, Some(directory)) => "子目录删除失败（目录："@ + directory.path@ + "，原因："@
                + directory.reason@ + "）；根目录删除失败："@ + root,
            (None, None) => root,
        }
    }

    /// Why the root could not be deleted; a file that is in use says most.
    pub fn describe(&self, root: &str) -> (r: String)
        ensures
            r@ == self.description(root@),
    {
        match (&self.file, &self.directory) {
            (Some(file), _) => {
                let mut message = "文件删除失败（被占用：".to_owned();
                message.push_str(file.path.as_str());
                message.push_str("，原因：");
                message.push_str(file.reason.as_str());
                message.push_str("）；根目录删除失败：");
                message.push_str(root);
                message
            },
            (None, Some(directory)) => {
                let mut message = "子目录删除失败（目录：".to_owned();
                message.push_str(directory.path.as_str());
                message.push_str("，原因：");
                message.push_str(directory.reason.as_str());
                message.push_str("）；根目录删除失败：");
                message.push_str(root);
                message
            },
            (None, None) => root.to_owned(),
        }
    }
}

/// The process that a backup's name gives, where it gives one.
pub open spec fn backup_owner(name: Seq<char>) -> Option<u64> {
    let prefix = ".viap_migration_backup_"@;
    let rest = name.subrange(prefix.len() as int, name.len() as int);
    match text::parsed_u64(text::pieces(rest, text::CharSet::One('_'))[0]) {
        Some(n) if n <= u32::MAX => Some(n),
        _ => None,
    }
}

/// Whether a directory name is that of a backup of another process.
pub open spec fn is_leftover(name: Seq<char>, process: u32) -> bool {
    text::has_prefix(name, ".viap_migration_backup_"@) && backup_owner(name) != Some(process as u64)
}

/// Whether a directory name is that of a backup of another process. The
/// backups of this process may belong to a migration that is under way.
pub fn is_leftover_backup(name: &str, process: u32) -> (r: bool)
    ensures
        r == is_leftover(name@, process),
{
    let prefix = text::chars_of(".viap_migration_backup_");
    let v = text::chars_of(name);
    if !text::stands_at_index(&v, &prefix, 0) {
        return false;
    }
    let rest = text::string_of(&v, prefix.len(), v.len());
    let parts = text::split(rest.as_str(), text::CharSet::One('_'));
    assert(text::texts(parts@)[0] == parts@[0]@);
    match text::parse_u64(parts[0].as_str()) {
        Some(n) => n != process as u64,
        None => true,
    }
}

/// An entry of a directory.
#[derive(Debug)]
pub struct DirectoryEntry {
    pub name: String,
    pub is_directory: bool,
}

/// The names of the backups that other processes left behind, in order.
pub open spec fn leftovers(entries: Seq<DirectoryEntry>, process: u32) -> Seq<Seq<char>>
    decreases entries.len(),
{
    if entries.len() == 0 {
        seq![]
    } else {
        let before = leftovers(entries.drop_last(), process);
        if is_leftover(entries.last().name@, process) && entries.last().is_directory {
            before.push(entries.last().name@)
        } else {
            before
        }
    }
}

/// The backups that other processes left behind.
pub fn cleanup_leftover_backups(entries: &Vec<DirectoryEntry>, process: u32) -> (r: Vec<String>)
    ensures
        text::texts(r@) == leftovers(entries@, process),
{
    let mut r: Vec<String> = Vec::new();
    let mut i: usize = 0;
    assert(text::texts(r@) =~= leftovers(entries@.take(0), process));
    while i < entries.len()
        invariant
            i <= entries@.len(),
            text::texts(r@) == leftovers(entries@.take(i as int), process),
        decreases entries@.len() - i,
    {
        assert(entries@.take(i + 1).drop_last() =~= entries@.take(i as int));
        if is_leftover_backup(entries[i].name.as_str(), process) && entries[i].is_directory {
            proof {
                text::lemma_texts_push(r@, entries@[i as int].name);
            }
            r.push(entries[i].name.clone());
        }
        i = i + 1;
    }
    assert(entries@.take(i as int) =~= entries@);
    r
}

} // verus!
