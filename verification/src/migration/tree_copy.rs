//! The copying of a tree, one step after the other.

#![verifier::loop_isolation(false)]

use vstd::prelude::*;

use crate::list;
use crate::migration::copy_engine::{
    directories_to_create, large_files, law_every_file_is_copied_once, needs_directory,
    partition_files, sizes_sum, small_files, CopyPlan, PlannedFile, PlannedLink,
};
use crate::migration::restore::RestoreEvent;
use crate::migration::{MigrationEvent, ProgressNote};
use crate::path;
use crate::path_order::{is_in_order, is_listed};
use crate::text;

verus! {

/// What files that are copied side by side share.
#[derive(Debug)]
pub struct CopyRun {
    /// Why the first file that failed could not be copied.
    pub error: Option<String>,
}

impl CopyRun {
    pub fn new() -> (r: Self)
        ensures
            r.error is None,
    {
        CopyRun { error: None }
    }

    /// Whether another file is to be copied.
    pub fn goes_on(&self, cancelled: bool) -> (r: bool)
        ensures
            r == (self.error is None && !cancelled),
    {
        self.error.is_none() && !cancelled
    }

    /// Notes a file that could not be copied. Only the first counts.
    pub fn file_failed(&mut self, reason: String)
        ensures
            final(self).error == (if old(self).error is Some {
                old(self).error
            } else {
                Some(reason)
            }),
    {
        if self.error.is_none() {
            self.error = Some(reason);
        }
    }
}

/// What is to be done next to copy a tree.
#[derive(Clone, Copy, Debug, PartialEq, Eq, Structural)]
pub enum TreeStage {
    /// Make the next directory.
    MakeDirectory,
    /// Copy the next file: alone while large files are left, side by side with
    /// all files behind it otherwise.
    CopyFile,
    /// See whether the user has cancelled.
    CheckCancel,
    /// Make the next link.
    MakeLink,
    Finished,
}

/// How it went.
#[derive(Debug)]
pub enum TreeEvent {
    /// The directory or the link was made, or the user has not cancelled.
    Done,
    /// The file was copied, with so many bytes.
    Copied { bytes: u64 },
    /// It could not be done.
    Failed { reason: String },
    /// Files cannot be copied side by side.
    PoolFailed { reason: String },
    /// The user had cancelled.
    Cancelled,
}

/// The copying of a tree, step by step: its directories, then its files, the
/// large ones first, then its links.
#[derive(Debug)]
pub struct TreeCopy {
    pub source_root: String,
    pub target_root: String,
    /// Paths below the target's root.
    pub directories: Vec<String>,
    pub files: Vec<PlannedFile>,
    /// How many of the files are copied one at a time.
    pub large: usize,
    pub links: Vec<PlannedLink>,
    pub total_size: u64,
    /// How many directories have been made.
    pub made: usize,
    /// How many files have been copied.
    pub copied: usize,
    /// How many links have been made.
    pub linked: usize,
    /// Bytes of files of which nothing was copied.
    pub skipped: u64,
    pub stage: TreeStage,
    /// The bytes that the plan counts and those of them that were skipped, or
    /// why the copying was broken off.
    pub result: Option<Result<(u64, u64), String>>,
}

impl TreeCopy {
    /// Whether all files and links are done that come before the stage, and
    /// there is something to be done in it.
    pub open spec fn well_formed(self) -> bool {
        &&& self.total_size == sizes_sum(self.files@)
        &&& self.large <= self.files@.len()
        &&& self.made <= self.directories@.len()
        &&& self.copied <= self.files@.len()
        &&& self.linked <= self.links@.len()
        &&& self.skipped <= sizes_sum(self.files@.take(self.copied as int))
        &&& self.stage is Finished <==> self.result is Some
        &&& match self.stage {
            TreeStage::MakeDirectory => self.made < self.directories@.len() && self.copied == 0
                && self.linked == 0,
            TreeStage::CopyFile => self.made == self.directories@.len() && self.copied
                < self.files@.len() && self.linked == 0,
            TreeStage::CheckCancel => self.made == self.directories@.len() && self.copied
                == self.files@.len() && self.linked == 0,
            TreeStage::MakeLink => self.made == self.directories@.len() && self.copied
                == self.files@.len() && self.linked < self.links@.len(),
            TreeStage::Finished => self.result matches Some(Ok((total, skipped))) ==> self.is_whole()
                && total == self.total_size && skipped == self.skipped,
        }
    }

    /// Whether every directory was made, every file copied and every link made.
    pub open spec fn is_whole(self) -> bool {
        &&& self.made == self.directories@.len()
        &&& self.copied == self.files@.len()
        &&& self.linked == self.links@.len()
    }

    /// Whether two values are of one tree.
    pub open spec fn same_tree(self, other: Self) -> bool {
        &&& self.source_root == other.source_root
        &&& self.target_root == other.target_root
        &&& self.directories == other.directories
        &&& self.files == other.files
        &&& self.large == other.large
        &&& self.links == other.links
        &&& self.total_size == other.total_size
    }

    /// Whether two values have come equally far.
    pub open spec fn same_counts(self, other: Self) -> bool {
        &&& self.made == other.made
        &&& self.copied == other.copied
        &&& self.linked == other.linked
        &&& self.skipped == other.skipped
    }

    /// The stage after directories have been made.
    pub open spec fn after_directories(self, made: int) -> TreeStage {
        if made < self.directories@.len() {
            TreeStage::MakeDirectory
        } else if self.files@.len() > 0 {
            TreeStage::CopyFile
        } else if self.links@.len() > 0 {
            TreeStage::CheckCancel
        } else {
            TreeStage::Finished
        }
    }

    /// The path of the directory that is to be made.
    pub open spec fn directory_place(self) -> Seq<char> {
        path::joined(self.target_root@, self.directories@[self.made as int]@)
    }

    /// The path of the link that is to be made.
    pub open spec fn link_place(self) -> Seq<char> {
        path::joined(self.target_root@, self.links@[self.linked as int].relative_path@)
    }

    /// What the copying is broken off with, if it is.
    pub open spec fn failure(self, event: TreeEvent) -> Option<Seq<char>> {
        match event {
            TreeEvent::Cancelled => Some("用户取消了迁移"@),
            TreeEvent::PoolFailed { reason } => Some("创建复制线程池失败: "@ + reason@),
            TreeEvent::Failed { reason } => Some(
                match self.stage {
                    TreeStage::MakeDirectory => "创建目录失败 "@ + self.directory_place() + ": "@
                        + reason@,
                    TreeStage::MakeLink => "重建目录链接失败 "@ + self.link_place() + " -> "@
                        + self.links@[self.linked as int].target@ + ": "@ + reason@,
                    _ => reason@,
                },
            ),
            _ => None,
        }
    }

    /// Whether `next` is what becomes of the copying with an event that is no
    /// failure.
    pub open spec fn goes_on_as(self, event: TreeEvent, next: Self) -> bool {
        match (self.stage, event) {
            (TreeStage::MakeDirectory, TreeEvent::Done) => {
                &&& next.made == self.made + 1
                &&& next.copied == self.copied
                &&& next.linked == self.linked
                &&& next.skipped == self.skipped
                &&& next.stage == self.after_directories(self.made + 1)
                &&& next.result == (if next.stage is Finished {
                    Some(Ok::<(u64, u64), String>((0, 0)))
                } else {
                    None
                })
            },
            (TreeStage::CopyFile, TreeEvent::Copied { bytes }) => {
                &&& next.made == self.made
                &&& next.copied == self.copied + 1
                &&& next.linked == self.linked
                &&& next.skipped == if bytes == 0 {
                    self.skipped + self.files@[self.copied as int].size
                } else {
                    self.skipped as int
                }
                &&& next.stage == (if self.copied + 1 < self.files@.len() {
                    TreeStage::CopyFile
                } else {
                    TreeStage::CheckCancel
                })
                &&& next.result is None
            },
            (TreeStage::CheckCancel, TreeEvent::Done) => {
                &&& next.same_counts(self)
                &&& next.stage == (if self.links@.len() > 0 {
                    TreeStage::MakeLink
                } else {
                    TreeStage::Finished
                })
                &&& next.result == (if self.links@.len() > 0 {
                    None
                } else {
                    Some(Ok::<(u64, u64), String>((self.total_size, self.skipped)))
                })
            },
            (TreeStage::MakeLink, TreeEvent::Done) => {
                &&& next.made == self.made
                &&& next.copied == self.copied
                &&& next.linked == self.linked + 1
                &&& next.skipped == self.skipped
                &&& next.stage == (if self.linked + 1 < self.links@.len() {
                    TreeStage::MakeLink
                } else {
                    TreeStage::Finished
                })
                &&& next.result == (if self.linked + 1 < self.links@.len() {
                    None
                } else {
                    Some(Ok::<(u64, u64), String>((self.total_size, self.skipped)))
                })
            },
            _ => next == self,
        }
    }

    /// Whether `next` is what becomes of the copying. What is finished stays as
    /// it is, and so does what an event does not speak of.
    pub open spec fn becomes(self, event: TreeEvent, next: Self) -> bool {
        &&& next.same_tree(self)
        &&& if self.stage is Finished {
            next == self
        } else {
            match self.failure(event) {
                Some(message) => next.stage is Finished && next.same_counts(self) && (
                next.result matches Some(Err(reason)) && reason@ == message),
                None => self.goes_on_as(event, next),
            }
        }
    }

    fn failure_message(&self, event: &TreeEvent) -> (r: Option<String>)
        requires
            self.well_formed(),
            !(self.stage is Finished),
        ensures
            text::view_of(r) == self.failure(*event),
    {
        match event {
            TreeEvent::Cancelled => Some("用户取消了迁移".to_owned()),
            TreeEvent::PoolFailed { reason } => {
                let mut message = "创建复制线程池失败: ".to_owned();
                message.push_str(reason.as_str());
                Some(message)
            },
            TreeEvent::Failed { reason } => match self.stage {
                TreeStage::MakeDirectory => {
                    let mut message = "创建目录失败 ".to_owned();
                    message.push_str(self.directory().as_str());
                    message.push_str(": ");
                    message.push_str(reason.as_str());
                    Some(message)
                },
                TreeStage::MakeLink => {
                    let mut message = "重建目录链接失败 ".to_owned();
                    message.push_str(self.link().as_str());
                    message.push_str(" -> ");
                    message.push_str(self.links[self.linked].target.as_str());
                    message.push_str(": ");
                    message.push_str(reason.as_str());
                    Some(message)
                },
                _ => Some(reason.clone()),
            },
            _ => None,
        }
    }

    /// The path of the directory that is to be made.
    pub fn directory(&self) -> (r: String)
        requires
            self.well_formed(),
            self.stage is MakeDirectory,
        ensures
            r@ == self.directory_place(),
    {
        path::join(self.target_root.as_str(), self.directories[self.made].as_str())
    }

    /// The path of the link that is to be made.
    pub fn link(&self) -> (r: String)
        requires
            self.well_formed(),
            self.stage is MakeLink,
        ensures
            r@ == self.link_place(),
    {
        path::join(self.target_root.as_str(), self.links[self.linked].relative_path.as_str())
    }

    /// Where a file is copied from and to.
    pub fn file_places(&self, index: usize) -> (r: (String, String))
        requires
            index < self.files@.len(),
        ensures
            r.0@ == path::joined(self.source_root@, self.files@[index as int].relative_path@),
            r.1@ == path::joined(self.target_root@, self.files@[index as int].relative_path@),
    {
        let relative = self.files[index].relative_path.as_str();
        (
            path::join(self.source_root.as_str(), relative),
            path::join(self.target_root.as_str(), relative),
        )
    }

    /// What becomes of the copying once what its stage asks for has been done
    /// or has failed.
    pub fn advance(self, event: TreeEvent) -> (r: Self)
        requires
            self.well_formed(),
        ensures
            r.well_formed(),
            self.becomes(event, r),
    {
        let mut next = self;
        if matches!(next.stage, TreeStage::Finished) {
            return next;
        }
        if let Some(message) = next.failure_message(&event) {
            next.stage = TreeStage::Finished;
            next.result = Some(Err(message));
            return next;
        }
        match (next.stage, event) {
            (TreeStage::MakeDirectory, TreeEvent::Done) => {
                let all: usize = next.directories.len();
                next.made = next.made + 1;
                next.stage = if next.made < all {
                    TreeStage::MakeDirectory
                } else if next.files.len() > 0 {
                    TreeStage::CopyFile
                } else if next.links.len() > 0 {
                    TreeStage::CheckCancel
                } else {
                    TreeStage::Finished
                };
                if matches!(next.stage, TreeStage::Finished) {
                    next.result = Some(Ok((0, 0)));
                }
            },
            (TreeStage::CopyFile, TreeEvent::Copied { bytes }) => {
                let size: u64 = next.files[next.copied].size;
                proof {
                    lemma_sizes_sum_step(self.files@, self.copied as int);
                }
                if bytes == 0 {
                    next.skipped = next.skipped + size;
                }
                let all: usize = next.files.len();
                next.copied = next.copied + 1;
                if next.copied == all {
                    next.stage = TreeStage::CheckCancel;
                }
            },
            (TreeStage::CheckCancel, TreeEvent::Done) => {
                if next.links.len() > 0 {
                    next.stage = TreeStage::MakeLink;
                } else {
                    next.stage = TreeStage::Finished;
                    next.result = Some(Ok((next.total_size, next.skipped)));
                }
            },
            (TreeStage::MakeLink, TreeEvent::Done) => {
                let all: usize = next.links.len();
                next.linked = next.linked + 1;
                if next.linked == all {
                    next.stage = TreeStage::Finished;
                    next.result = Some(Ok((next.total_size, next.skipped)));
                }
            },
            _ => {},
        }
        next
    }

    /// What a migration is told of a copy that has ended: that the tree was
    /// copied only where it was copied as a whole.
    pub fn conclude(self) -> (r: MigrationEvent)
        requires
            self.well_formed(),
            self.stage is Finished,
        ensures
            match self.result {
                Some(Ok((total, skipped))) => self.is_whole() && r == (MigrationEvent::Copied {
                    total,
                    skipped,
                }),
                Some(Err(reason)) => r == (MigrationEvent::Failed { code: None, reason }),
                None => false,
            },
    {
        match self.result {
            Some(Ok((total, skipped))) => MigrationEvent::Copied { total, skipped },
            Some(Err(reason)) => MigrationEvent::Failed { code: None, reason },
            None => MigrationEvent::Done,
        }
    }

    /// What a restore is told of a copy that has ended: that it is done only
    /// where the tree was copied as a whole.
    pub fn conclude_restore(self) -> (r: RestoreEvent)
        requires
            self.well_formed(),
            self.stage is Finished,
        ensures
            match self.result {
                Some(Ok(_)) => self.is_whole() && r is Done,
                Some(Err(reason)) => r == (RestoreEvent::Failed { reason }),
                None => false,
            },
    {
        match self.result {
            Some(Err(reason)) => RestoreEvent::Failed { reason },
            _ => RestoreEvent::Done,
        }
    }

    /// What is reported of the stage that has been reached: that the copying of
    /// bytes begins, that the links are being made, or that there was nothing
    /// but directories.
    pub open spec fn note(self) -> Option<ProgressNote> {
        match self.stage {
            TreeStage::CopyFile if self.copied == 0 && self.total_size > 0 => Some(
                ProgressNote {
                    percent: 10,
                    step: "copying",
                    message: "开始复制文件...",
                    copied_size: 0,
                    total_size: self.total_size,
                },
            ),
            TreeStage::MakeLink if self.linked == 0 => Some(
                ProgressNote {
                    percent: 89,
                    step: "linking",
                    message: "正在重建目录链接...",
                    copied_size: self.total_size,
                    total_size: self.total_size,
                },
            ),
            TreeStage::Finished if self.result == Some(Ok::<(u64, u64), String>((0, 0)))
                && self.files@.len() == 0 && self.links@.len() == 0 => Some(
                ProgressNote {
                    percent: 88,
                    step: "copying",
                    message: "源目录为空，已复制目录结构",
                    copied_size: 0,
                    total_size: 0,
                },
            ),
            _ => None,
        }
    }

    /// What is reported of the stage that has been reached.
    pub fn progress(&self) -> (r: Option<ProgressNote>)
        ensures
            r == self.note(),
    {
        match self.stage {
            TreeStage::CopyFile => if self.copied == 0 && self.total_size > 0 {
                Some(
                    ProgressNote {
                        percent: 10,
                        step: "copying",
                        message: "开始复制文件...",
                        copied_size: 0,
                        total_size: self.total_size,
                    },
                )
            } else {
                None
            },
            TreeStage::MakeLink => if self.linked == 0 {
                Some(
                    ProgressNote {
                        percent: 89,
                        step: "linking",
                        message: "正在重建目录链接...",
                        copied_size: self.total_size,
                        total_size: self.total_size,
                    },
                )
            } else {
                None
            },
            TreeStage::Finished => {
                let done = match &self.result {
                    Some(Ok((total, skipped))) => *total == 0 && *skipped == 0,
                    _ => false,
                };
                if done && self.files.len() == 0 && self.links.len() == 0 {
                    Some(
                        ProgressNote {
                            percent: 88,
                            step: "copying",
                            message: "源目录为空，已复制目录结构",
                            copied_size: 0,
                            total_size: 0,
                        },
                    )
                } else {
                    None
                }
            },
            _ => None,
        }
    }
}

/// The copying of what a plan lists, with nothing done yet.
pub fn copy_dir(plan: CopyPlan) -> (r: TreeCopy)
    requires
        plan.well_formed(),
    ensures
        r.well_formed(),
        r.source_root == plan.source_root,
        r.target_root == plan.target_root,
        forall|d: Seq<char>| #[trigger]
            list::holds_text(r.directories@, d) ==> needs_directory(plan, d),
        forall|d: Seq<char>| #[trigger] needs_directory(plan, d) ==> is_listed(r.directories@, d),
        is_in_order(r.directories@),
        list::is_stable_sort(large_files(plan.file_list@), r.files@.take(r.large as int)),
        r.files@.skip(r.large as int) == small_files(plan.file_list@),
        r.links == plan.link_list,
        r.total_size == plan.total_size,
        r.made == 0,
        r.copied == 0,
        r.linked == 0,
        r.skipped == 0,
        r.stage == r.after_directories(0),
        r.result == (if r.stage is Finished {
            Some(Ok::<(u64, u64), String>((0, 0)))
        } else {
            None
        }),
{
    let directories = directories_to_create(&plan);
    let CopyPlan {
        source_root,
        target_root,
        file_list,
        dir_list: _,
        link_list,
        has_executable: _,
        total_size,
    } = plan;
    let ghost listed = file_list@;
    let (mut files, mut small) = partition_files(file_list);
    let large: usize = files.len();
    let ghost first = files@;
    let ghost second = small@;
    files.append(&mut small);
    assert(files@ =~= first + second);
    assert(files@.take(large as int) =~= first);
    assert(files@.skip(large as int) =~= second);
    proof {
        law_every_file_is_copied_once(listed);
        lemma_sizes_sum_of_sort(large_files(listed), first);
        lemma_sizes_sum_together(first, second);
        assert(files@.take(0) =~= Seq::<PlannedFile>::empty());
        if files@.len() == 0 {
            assert(sizes_sum(files@) == 0);
        }
    }
    let stage = if directories.len() > 0 {
        TreeStage::MakeDirectory
    } else if files.len() > 0 {
        TreeStage::CopyFile
    } else if link_list.len() > 0 {
        TreeStage::CheckCancel
    } else {
        TreeStage::Finished
    };
    let result = if matches!(stage, TreeStage::Finished) {
        Some(Ok((0, 0)))
    } else {
        None
    };
    TreeCopy {
        source_root,
        target_root,
        directories,
        files,
        large,
        links: link_list,
        total_size,
        made: 0,
        copied: 0,
        linked: 0,
        skipped: 0,
        stage,
        result,
    }
}

/// A copy that comes to an end well is whole: all directories were made, all
/// files copied, be they empty, and all links made; and the number that is
/// returned is the sum of the files' sizes.
pub proof fn law_finished_copy_is_whole(copy: TreeCopy)
    requires
        copy.well_formed(),
        copy.result matches Some(Ok(_)),
    ensures
        copy.is_whole(),
        copy.result == Some(Ok::<(u64, u64), String>((copy.total_size, copy.skipped))),
        copy.total_size == sizes_sum(copy.files@),
{
}

/// Nothing counts as made or copied but what has just been made or copied, and
/// one at a time.
pub proof fn law_copy_counts_what_was_done(copy: TreeCopy, event: TreeEvent, next: TreeCopy)
    requires
        copy.well_formed(),
        copy.becomes(event, next),
    ensures
        next.made > copy.made ==> event is Done && copy.stage is MakeDirectory && next.made
            == copy.made + 1,
        next.copied > copy.copied ==> event is Copied && copy.stage is CopyFile && next.copied
            == copy.copied + 1,
        next.linked > copy.linked ==> event is Done && copy.stage is MakeLink && next.linked
            == copy.linked + 1,
        next.made >= copy.made && next.copied >= copy.copied && next.linked >= copy.linked,
{
}

/// Whether an event says that what a stage asks for was done.
pub open spec fn is_done(stage: TreeStage, event: TreeEvent) -> bool {
    match stage {
        TreeStage::MakeDirectory | TreeStage::MakeLink => event is Done,
        TreeStage::CopyFile => event is Copied,
        _ => false,
    }
}

/// Whether a copy goes through the given states, from its beginning on.
pub open spec fn is_run(copies: Seq<TreeCopy>, events: Seq<TreeEvent>) -> bool {
    &&& copies.len() == events.len() + 1
    &&& copies[0].well_formed()
    &&& copies[0].made == 0 && copies[0].copied == 0 && copies[0].linked == 0
    &&& forall|i: int|
        #![trigger copies[i], events[i]]
        0 <= i < events.len() ==> copies[i].becomes(events[i], copies[i + 1]) && copies[i
            + 1].well_formed()
}

/// How often what a stage asks for was done.
pub open spec fn times_done(
    copies: Seq<TreeCopy>,
    events: Seq<TreeEvent>,
    stage: TreeStage,
) -> nat
    decreases events.len(),
{
    if events.len() == 0 {
        0
    } else {
        let n = events.len() - 1;
        times_done(copies.drop_last(), events.drop_last(), stage) + if copies[n].stage == stage
            && is_done(stage, events[n]) {
            1nat
        } else {
            0nat
        }
    }
}

/// A copy that comes to an end well was told of every directory that it was
/// made, of every file that it was copied and of every link that it was made:
/// with one of them missing it never ends well.
pub proof fn law_whole_copy_took_every_step(copies: Seq<TreeCopy>, events: Seq<TreeEvent>)
    requires
        is_run(copies, events),
    ensures
        times_done(copies, events, TreeStage::MakeDirectory) == copies.last().made,
        times_done(copies, events, TreeStage::CopyFile) == copies.last().copied,
        times_done(copies, events, TreeStage::MakeLink) == copies.last().linked,
        copies.last().same_tree(copies[0]),
        copies.last().result matches Some(Ok((total, skipped))) ==> {
            &&& total == copies[0].total_size
            &&& times_done(copies, events, TreeStage::MakeDirectory) == copies[0].directories@.len()
            &&& times_done(copies, events, TreeStage::CopyFile) == copies[0].files@.len()
            &&& times_done(copies, events, TreeStage::MakeLink) == copies[0].links@.len()
        },
    decreases events.len(),
{
    if events.len() > 0 {
        let n = events.len() - 1;
        let front = copies.drop_last();
        let earlier = events.drop_last();
        assert forall|i: int|
            #![trigger front[i], earlier[i]]
            0 <= i < earlier.len() implies front[i].becomes(earlier[i], front[i + 1]) && front[i
            + 1].well_formed() by {
            assert(copies[i].becomes(events[i], copies[i + 1]));
        }
        law_whole_copy_took_every_step(front, earlier);
        assert(copies[n].becomes(events[n], copies[n + 1]));
        assert(front.last() == copies[n]);
        assert(copies[n].well_formed()) by {
            if n > 0 {
                assert(copies[n - 1].becomes(events[n - 1], copies[n]));
            }
        }
    }
}

/// The making of links is reported if and only if there are links and the
/// files have been copied.
pub proof fn law_linking_is_reported_where_there_are_links(
    copy: TreeCopy,
    event: TreeEvent,
    next: TreeCopy,
)
    requires
        copy.well_formed(),
        copy.stage is CheckCancel,
        copy.becomes(event, next),
        event is Done,
    ensures
        next.note() matches Some(note) && note.step == "linking" <==> copy.links@.len() > 0,
{
    reveal_strlit("linking");
    reveal_strlit("copying");
    assert("copying"@[0] != "linking"@[0]);
}

proof fn lemma_sizes_sum_step(files: Seq<PlannedFile>, n: int)
    requires
        0 <= n < files.len(),
    ensures
        sizes_sum(files.take(n + 1)) == sizes_sum(files.take(n)) + files[n].size,
        sizes_sum(files.take(n + 1)) <= sizes_sum(files),
{
    assert(files.take(n + 1).drop_last() =~= files.take(n));
    assert(files =~= files.take(n + 1) + files.skip(n + 1));
    lemma_sizes_sum_together(files.take(n + 1), files.skip(n + 1));
}

proof fn lemma_sizes_sum_together(a: Seq<PlannedFile>, b: Seq<PlannedFile>)
    ensures
        sizes_sum(a + b) == sizes_sum(a) + sizes_sum(b),
        sizes_sum(b) >= 0,
    decreases b.len(),
{
    if b.len() == 0 {
        assert(a + b =~= a);
    } else {
        lemma_sizes_sum_together(a, b.drop_last());
        assert((a + b).drop_last() =~= a + b.drop_last());
    }
}

proof fn lemma_sizes_sum_of_sort(v: Seq<PlannedFile>, r: Seq<PlannedFile>)
    requires
        list::is_stable_sort(v, r),
    ensures
        sizes_sum(r) == sizes_sum(v),
        r.len() == v.len(),
{
    let p = choose|p: Seq<int>| list::is_stable_rearrangement(v, r, p);
    lemma_sizes_sum_rearranged(v, r, p);
}

/// Files in another order have the same sum.
proof fn lemma_sizes_sum_rearranged(v: Seq<PlannedFile>, r: Seq<PlannedFile>, p: Seq<int>)
    requires
        p.len() == v.len(),
        r.len() == v.len(),
        forall|i: int| 0 <= i < p.len() ==> 0 <= #[trigger] p[i] < v.len() && r[i] == v[p[i]],
        forall|i: int, j: int| 0 <= i < j < p.len() ==> #[trigger] p[i] != #[trigger] p[j],
    ensures
        sizes_sum(r) == sizes_sum(v),
    decreases v.len(),
{
    if v.len() > 0 {
        let k = p.last();
        let shorter = v.remove(k);
        let q = Seq::new(
            (p.len() - 1) as nat,
            |i: int|
                if p[i] < k {
                    p[i]
                } else {
                    p[i] - 1
                },
        );
        assert forall|i: int| 0 <= i < q.len() implies 0 <= #[trigger] q[i] < shorter.len()
            && r.drop_last()[i] == shorter[q[i]] by {
            assert(p[i] != p[p.len() - 1]);
        }
        assert forall|i: int, j: int| 0 <= i < j < q.len() implies #[trigger] q[i]
            != #[trigger] q[j] by {
            assert(p[i] != p[j]);
            assert(p[i] != p[p.len() - 1]);
            assert(p[j] != p[p.len() - 1]);
        }
        lemma_sizes_sum_rearranged(shorter, r.drop_last(), q);
        let first = v.take(k);
        let second = v.skip(k + 1);
        assert(shorter =~= first + second);
        assert(v =~= first.push(v[k]) + second);
        assert(first.push(v[k]).drop_last() =~= first);
        lemma_sizes_sum_together(first, second);
        lemma_sizes_sum_together(first.push(v[k]), second);
        assert(r.last() == v[k]);
    }
}

} // verus!
