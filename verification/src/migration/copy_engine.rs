//! What is copied, in which order, and what becomes of failures on the way.

#![verifier::loop_isolation(false)]

use vstd::prelude::*;

use crate::list;
use crate::path;
use crate::path_order::{is_in_order, is_listed, sorted_paths};
use crate::text;

verus! {

/// Files larger than this are copied one at a time.
pub const LARGE_FILE_THRESHOLD: u64 = 33_554_432;

/// Files at least this large are copied past the system cache.
pub const NO_BUFFERING_THRESHOLD: u64 = 268_435_456;

/// How many files are copied at the same time.
pub const COPY_PARALLELISM: usize = 8;

pub const COPY_FILE_ALLOW_DECRYPTED_DESTINATION: u32 = 8;

pub const COPY_FILE_ALLOW_DECRYPTED_UNBUFFERED: u32 = 4104;

/// How many levels deep executables are looked for.
pub const EXECUTABLE_DEPTH: usize = 5;

/// A file that is to be copied.
#[derive(Debug)]
pub struct PlannedFile {
    /// Path below the root.
    pub relative_path: String,
    /// Path of its directory below the root; empty for the root.
    pub parent: String,
    pub size: u64,
}

/// A file that is to be copied, as a value.
#[verifier::ext_equal]
pub struct PlannedFileView {
    pub relative_path: Seq<char>,
    pub parent: Seq<char>,
    pub size: u64,
}

impl View for PlannedFile {
    type V = PlannedFileView;

    open spec fn view(&self) -> PlannedFileView {
        PlannedFileView {
            relative_path: self.relative_path@,
            parent: self.parent@,
            size: self.size,
        }
    }
}

/// A directory link that is to be made again.
#[derive(Debug)]
pub struct PlannedLink {
    pub relative_path: String,
    /// Path of its directory below the root; empty for the root.
    pub parent: String,
    /// Where the link is to lead.
    pub target: String,
}

/// A link that is to be made again, as a value.
#[verifier::ext_equal]
pub struct PlannedLinkView {
    pub relative_path: Seq<char>,
    pub parent: Seq<char>,
    pub target: Seq<char>,
}

impl View for PlannedLink {
    type V = PlannedLinkView;

    open spec fn view(&self) -> PlannedLinkView {
        PlannedLinkView {
            relative_path: self.relative_path@,
            parent: self.parent@,
            target: self.target@,
        }
    }
}

/// The values of planned files.
pub open spec fn file_views(files: Seq<PlannedFile>) -> Seq<PlannedFileView> {
    Seq::new(files.len(), |i: int| files[i]@)
}

/// The values of planned links.
pub open spec fn link_views(links: Seq<PlannedLink>) -> Seq<PlannedLinkView> {
    Seq::new(links.len(), |i: int| links[i]@)
}

/// Everything that is to be copied.
#[derive(Debug)]
pub struct CopyPlan {
    pub source_root: String,
    pub target_root: String,
    pub file_list: Vec<PlannedFile>,
    pub dir_list: Vec<String>,
    pub link_list: Vec<PlannedLink>,
    /// Whether there is an executable no more than five levels deep.
    pub has_executable: bool,
    pub total_size: u64,
}

/// What a link leads to.
#[derive(Debug)]
pub enum LinkTarget {
    /// Nothing that exists.
    Dangling,
    File { size: u64 },
    /// A directory: the place that the link names, where that can be read.
    Directory { raw: Option<String> },
}

/// What is done with a link.
#[derive(Debug)]
pub enum ReparsePlan {
    /// The link is made again, leading to the given place.
    DirectoryLink { target: String },
    /// The file that it leads to is copied.
    FileContent { size: u64 },
}

/// What stands at a place in the tree.
#[derive(Debug)]
pub enum EntryKind {
    Link(LinkTarget),
    Directory,
    /// The size of a file, or why it cannot be read.
    File(Result<u64, String>),
    Other,
}

/// A place in the tree.
#[derive(Debug)]
pub struct ScanEntry {
    /// Absolute path.
    pub path: String,
    pub kind: EntryKind,
}

/// What walking the tree yields next.
#[derive(Debug)]
pub enum ScanStep {
    Unreadable { reason: String },
    Cancelled,
    Entry(ScanEntry),
}

/// Whether a path ends in the name of an executable and has no more than
/// `max_depth` components.
pub open spec fn is_executable_path(relative_path: Seq<char>, max_depth: int) -> bool {
    path::components(relative_path).len() <= max_depth && match path::last_name(relative_path) {
        Some(name) => match path::extension(name) {
            Some(e) => text::ascii_lowercase(e) == text::ascii_lowercase("exe"@),
            None => false,
        },
        None => false,
    }
}

/// Whether a file is an executable no more than `max_depth` levels deep.
pub fn is_executable_within_depth(relative_path: &str, max_depth: usize) -> (r: bool)
    ensures
        r == is_executable_path(relative_path@, max_depth as int),
{
    let parts = path::components_of(relative_path);
    assert(text::texts(parts@).len() == parts@.len());
    if parts.len() > max_depth {
        return false;
    }
    match path::last_name_of(relative_path) {
        Some(name) => match path::extension_of(name.as_str()) {
            Some(e) => text::same_ignoring_ascii_case(e.as_str(), "exe"),
            None => false,
        },
        None => false,
    }
}

/// Where a link leads once its tree has been moved: a relative target is taken
/// from the directory of the link. A place in the source becomes the
/// corresponding place in the target; any other stays what it is.
pub open spec fn rewritten_target(
    link_parent: Seq<char>,
    raw: Seq<char>,
    source: Seq<char>,
    target: Seq<char>,
) -> Seq<char> {
    let found = path::joined(link_parent, raw);
    if path::lies_in(found, source) {
        path::joined(target, path::rest_below(found, source))
    } else {
        found
    }
}

/// Where a link leads once its tree has been moved.
pub fn rewrite_link_target(link_parent: &str, raw: &str, source: &str, target: &str) -> (r: String)
    ensures
        r@ == rewritten_target(link_parent@, raw@, source@, target@),
{
    let found = path::join(link_parent, raw);
    match path::strip(found.as_str(), source) {
        Some(rest) => path::join(target, rest.as_str()),
        None => found,
    }
}

/// A link that leads into the source leads into the target afterwards, to the
/// place of the same names. What it is beyond the source must not read as a
/// drive.
pub proof fn law_inner_link_leads_into_target(
    link_parent: Seq<char>,
    raw: Seq<char>,
    source: Seq<char>,
    target: Seq<char>,
)
    requires
        path::begins_at_root(source),
        !path::is_verbatim(source),
        path::is_on_disk(target),
        path::lies_in(path::joined(link_parent, raw), source),
        !path::has_drive(path::rest_below(path::joined(link_parent, raw), source)),
    ensures
        path::lies_in(rewritten_target(link_parent, raw, source, target), target),
        exists|names: Seq<Seq<char>>| #[trigger]
            path::components(path::joined(link_parent, raw)) == path::components(source) + names
                && path::components(rewritten_target(link_parent, raw, source, target))
                == path::components(target) + names,
{
    let found = path::joined(link_parent, raw);
    let rest = path::rest_below(found, source);
    path::law_rest_holds_the_other_names(found, source);
    path::lemma_no_prefix_without_separator(rest);
    path::law_joined_adds_the_names(target, rest);
    let names = path::names(rest, false);
    let start = path::components(target);
    assert(path::components(found) == path::components(source) + names);
    assert((start + names).take(start.len() as int) =~= start);
}

/// What is done with a link in the directory `link_parent`: one that leads
/// nowhere is left out, the content of a linked file is copied, and a link to a
/// directory is made again. If the directory lies in the source, the new link
/// leads to its copy.
pub fn plan_reparse_point(
    link: LinkTarget,
    link_parent: &str,
    source: &str,
    target: &str,
) -> (r: Option<ReparsePlan>)
    ensures
        match link {
            LinkTarget::Dangling => r is None,
            LinkTarget::File { size } => r == Some(ReparsePlan::FileContent { size }),
            LinkTarget::Directory { raw: None } => r is None,
            LinkTarget::Directory { raw: Some(raw) } => r matches Some(
                ReparsePlan::DirectoryLink { target: place },
            ) && place@ == rewritten_target(link_parent@, raw@, source@, target@),
        },
{
    match link {
        LinkTarget::Dangling => None,
        LinkTarget::File { size } => Some(ReparsePlan::FileContent { size }),
        LinkTarget::Directory { raw } => match raw {
            None => None,
            Some(raw) => Some(
                ReparsePlan::DirectoryLink {
                    target: rewrite_link_target(link_parent, raw.as_str(), source, target),
                },
            ),
        },
    }
}

/// The path of an entry below the source.
pub open spec fn entry_path(entry: ScanEntry, source: Seq<char>) -> Seq<char> {
    path::rest_below(entry.path@, source)
}

/// The directory in which a path stands; empty where it stands in none.
pub open spec fn parent_or_empty(path: Seq<char>) -> Seq<char> {
    match path::parent(path) {
        Some(parent) => parent,
        None => seq![],
    }
}

fn parent_text(path: &str) -> (r: String)
    ensures
        r@ == parent_or_empty(path@),
{
    match path::parent_of(path) {
        Some(parent) => parent,
        None => {
            let r = String::new();
            assert(r@ =~= Seq::<char>::empty());
            r
        },
    }
}

/// The path, below the source, of the directory in which an entry stands.
pub open spec fn entry_parent(entry: ScanEntry, source: Seq<char>) -> Seq<char> {
    parent_or_empty(entry_path(entry, source))
}

/// Whether an entry stands below the source. The source itself does not.
pub open spec fn is_below(entry: ScanEntry, source: Seq<char>) -> bool {
    path::lies_in(entry.path@, source) && entry_path(entry, source).len() > 0
}

/// The bytes that an entry adds to the plan.
pub open spec fn entry_size(entry: ScanEntry, source: Seq<char>) -> u64 {
    if !is_below(entry, source) {
        0
    } else {
        match entry.kind {
            EntryKind::Link(LinkTarget::File { size }) => size,
            EntryKind::File(Ok(size)) => size,
            _ => 0,
        }
    }
}

/// Whether an entry is copied as a file.
pub open spec fn is_copied_file(entry: ScanEntry, source: Seq<char>) -> bool {
    is_below(entry, source) && match entry.kind {
        EntryKind::Link(LinkTarget::File { size }) => true,
        EntryKind::File(Ok(size)) => true,
        _ => false,
    }
}

/// Where a link that is made again leads.
pub open spec fn relinked_to(entry: ScanEntry, source: Seq<char>, target: Seq<char>) -> Option<
    Seq<char>,
> {
    if !is_below(entry, source) {
        None
    } else {
        match entry.kind {
            EntryKind::Link(LinkTarget::Directory { raw: Some(raw) }) => Some(
                rewritten_target(
                    parent_or_empty(entry.path@),
                    raw@,
                    source,
                    target,
                ),
            ),
            _ => None,
        }
    }
}

/// Whether an entry is made as a directory.
pub open spec fn is_made_directory(entry: ScanEntry, source: Seq<char>) -> bool {
    is_below(entry, source) && entry.kind is Directory
}

/// Why a step breaks the scan off, if it does.
pub open spec fn scan_failure(step: ScanStep, source: Seq<char>) -> Option<Seq<char>> {
    match step {
        ScanStep::Unreadable { reason } => Some("目录遍历失败 "@ + source + ": "@ + reason@),
        ScanStep::Cancelled => Some("用户取消了迁移"@),
        ScanStep::Entry(entry) => if !path::lies_in(entry.path@, source) {
            Some("路径解析失败: prefix not found"@)
        } else {
            match entry.kind {
                EntryKind::File(Err(reason)) if is_below(entry, source) => Some(
                    "读取文件元数据失败 "@ + entry.path@ + ": "@ + reason@,
                ),
                _ => None,
            }
        },
    }
}

/// The file that an entry plans.
pub open spec fn planned_file(entry: ScanEntry, source: Seq<char>) -> PlannedFileView {
    PlannedFileView {
        relative_path: entry_path(entry, source),
        parent: entry_parent(entry, source),
        size: entry_size(entry, source),
    }
}

/// The link that an entry plans.
pub open spec fn planned_link(
    entry: ScanEntry,
    source: Seq<char>,
    place: Seq<char>,
) -> PlannedLinkView {
    PlannedLinkView {
        relative_path: entry_path(entry, source),
        parent: entry_parent(entry, source),
        target: place,
    }
}

/// The plan with an entry added to it.
pub open spec fn extends_plan(p: CopyPlan, q: CopyPlan, entry: ScanEntry) -> bool {
    let source = p.source_root@;
    &&& q.source_root == p.source_root
    &&& q.target_root == p.target_root
    &&& file_views(q.file_list@) == if is_copied_file(entry, source) {
        file_views(p.file_list@).push(planned_file(entry, source))
    } else {
        file_views(p.file_list@)
    }
    &&& text::texts(q.dir_list@) == if is_made_directory(entry, source) {
        text::texts(p.dir_list@).push(entry_path(entry, source))
    } else {
        text::texts(p.dir_list@)
    }
    &&& link_views(q.link_list@) == match relinked_to(entry, source, p.target_root@) {
        Some(place) => link_views(p.link_list@).push(planned_link(entry, source, place)),
        None => link_views(p.link_list@),
    }
    &&& q.has_executable == (p.has_executable || (is_copied_file(entry, source)
        && is_executable_path(entry_path(entry, source), EXECUTABLE_DEPTH as int)))
    &&& q.total_size == p.total_size + entry_size(entry, source)
}

/// The sum of the sizes of files.
pub open spec fn sizes_sum(files: Seq<PlannedFile>) -> int
    decreases files.len(),
{
    if files.len() == 0 {
        0
    } else {
        sizes_sum(files.drop_last()) + files.last().size
    }
}

/// Whether one of the files is an executable that is not too deep.
pub open spec fn holds_executable(files: Seq<PlannedFileView>) -> bool {
    exists|i: int|
        0 <= i < files.len() && is_executable_path(
            (#[trigger] files[i]).relative_path,
            EXECUTABLE_DEPTH as int,
        )
}

impl CopyPlan {
    /// Whether the total is that of the files, and the plan knows whether there
    /// is an executable among them.
    pub open spec fn well_formed(self) -> bool {
        &&& self.total_size == sizes_sum(self.file_list@)
        &&& self.has_executable == holds_executable(file_views(self.file_list@))
    }

    /// A plan with nothing in it.
    pub fn new(source: &str, target: &str) -> (r: Self)
        ensures
            r.well_formed(),
            r.source_root@ == source@,
            r.target_root@ == target@,
            r.file_list@.len() == 0,
            r.dir_list@.len() == 0,
            r.link_list@.len() == 0,
            !r.has_executable,
            r.total_size == 0,
    {
        CopyPlan {
            source_root: source.to_owned(),
            target_root: target.to_owned(),
            file_list: Vec::new(),
            dir_list: Vec::new(),
            link_list: Vec::new(),
            has_executable: false,
            total_size: 0,
        }
    }

    /// Takes in what walking the tree yields next. An error breaks the scan off
    /// and leaves the plan as it was.
    pub fn take_step(&mut self, step: ScanStep) -> (r: Result<(), String>)
        requires
            old(self).well_formed(),
            step matches ScanStep::Entry(entry) ==> old(self).total_size + entry_size(
                entry,
                old(self).source_root@,
            ) <= u64::MAX,
        ensures
            final(self).well_formed(),
            match r {
                Ok(()) => scan_failure(step, old(self).source_root@) is None && (
                step matches ScanStep::Entry(entry) && extends_plan(
                    *old(self),
                    *final(self),
                    entry,
                )),
                Err(message) => scan_failure(step, old(self).source_root@) == Some(message@)
                    && *final(self) == *old(self),
            },
    {
        let entry = match step {
            ScanStep::Unreadable { reason } => {
                let mut message = "目录遍历失败 ".to_owned();
                message.push_str(self.source_root.as_str());
                message.push_str(": ");
                message.push_str(reason.as_str());
                return Err(message);
            },
            ScanStep::Cancelled => {
                return Err("用户取消了迁移".to_owned());
            },
            ScanStep::Entry(entry) => entry,
        };
        let ghost given = entry;
        let ScanEntry { path: place, kind } = entry;
        let relative_path = match path::strip(place.as_str(), self.source_root.as_str()) {
            Some(rest) => rest,
            None => {
                return Err("路径解析失败: prefix not found".to_owned());
            },
        };
        if relative_path.as_str().is_empty() {
            return Ok(());
        }
        let parent = parent_text(relative_path.as_str());
        match kind {
            EntryKind::Link(link) => {
                let link_parent = parent_text(place.as_str());
                match plan_reparse_point(
                    link,
                    link_parent.as_str(),
                    self.source_root.as_str(),
                    self.target_root.as_str(),
                ) {
                    Some(ReparsePlan::DirectoryLink { target }) => {
                        let added = PlannedLink { relative_path, parent, target };
                        self.link_list.push(added);
                        assert(link_views(self.link_list@) =~= link_views(
                            old(self).link_list@,
                        ).push(added@));
                    },
                    Some(ReparsePlan::FileContent { size }) => {
                        self.add_file(relative_path, parent, size);
                    },
                    None => {},
                }
            },
            EntryKind::Directory => {
                proof {
                    text::lemma_texts_push(self.dir_list@, relative_path);
                }
                self.dir_list.push(relative_path);
            },
            EntryKind::File(Ok(size)) => {
                self.add_file(relative_path, parent, size);
            },
            EntryKind::File(Err(reason)) => {
                let mut message = "读取文件元数据失败 ".to_owned();
                message.push_str(place.as_str());
                message.push_str(": ");
                message.push_str(reason.as_str());
                return Err(message);
            },
            EntryKind::Other => {},
        }
        Ok(())
    }

    fn add_file(&mut self, relative_path: String, parent: String, size: u64)
        requires
            old(self).well_formed(),
            old(self).total_size + size <= u64::MAX,
        ensures
            final(self).well_formed(),
            final(self).source_root == old(self).source_root,
            final(self).target_root == old(self).target_root,
            file_views(final(self).file_list@) == file_views(old(self).file_list@).push(
                (PlannedFileView { relative_path: relative_path@, parent: parent@, size }),
            ),
            final(self).dir_list == old(self).dir_list,
            final(self).link_list == old(self).link_list,
            final(self).total_size == old(self).total_size + size,
            final(self).has_executable == (old(self).has_executable || is_executable_path(
                relative_path@,
                EXECUTABLE_DEPTH as int,
            )),
    {
        let executable = is_executable_within_depth(relative_path.as_str(), EXECUTABLE_DEPTH);
        let ghost before = file_views(self.file_list@);
        let added = PlannedFile { relative_path, parent, size };
        self.total_size = self.total_size + size;
        self.has_executable = self.has_executable || executable;
        self.file_list.push(added);
        assert(self.file_list@.drop_last() =~= old(self).file_list@);
        assert(file_views(self.file_list@) =~= before.push(added@));
        proof {
            let after = before.push(added@);
            assert(after[before.len() as int] == added@);
            assert(forall|i: int| 0 <= i < before.len() ==> after[i] == before[i]);
            if holds_executable(before) {
                let i = choose|i: int|
                    0 <= i < before.len() && is_executable_path(
                        (#[trigger] before[i]).relative_path,
                        EXECUTABLE_DEPTH as int,
                    );
                assert(after[i] == before[i]);
            }
        }
    }
}

/// A plan that was filled step by step, or the failure that ended the scan.
pub fn build_copy_plan(steps: Vec<ScanStep>, source: &str, target: &str) -> (r: Result<
    CopyPlan,
    String,
>)
    requires
        steps_sum(steps@, source@) <= u64::MAX,
    ensures
        match r {
            Ok(plan) => plan.well_formed() && plan.total_size == steps_sum(steps@, source@)
                && forall|i: int|
                0 <= i < steps@.len() ==> scan_failure(#[trigger] steps@[i], source@) is None,
            Err(message) => exists|i: int|
                0 <= i < steps@.len() && scan_failure(#[trigger] steps@[i], source@) == Some(
                    message@,
                ) && forall|j: int|
                    0 <= j < i ==> scan_failure(#[trigger] steps@[j], source@) is None,
        },
        r matches Ok(plan) ==> plan.source_root@ == source@ && plan.target_root@ == target@,
        r matches Ok(plan) ==> file_views(plan.file_list@) == planned_files(steps@, source@),
        r matches Ok(plan) ==> text::texts(plan.dir_list@) == planned_dirs(steps@, source@),
        r matches Ok(plan) ==> link_views(plan.link_list@) == planned_links(
            steps@,
            source@,
            target@,
        ),
{
    let ghost all = steps@;
    let mut rest = list::Queue::of(steps);
    let mut plan = CopyPlan::new(source, target);
    let ghost mut n: int = 0;
    assert(rest@ =~= all.skip(0));
    assert(all.take(0) =~= Seq::<ScanStep>::empty());
    assert(file_views(plan.file_list@) =~= planned_files(all.take(0), source@));
    assert(text::texts(plan.dir_list@) =~= planned_dirs(all.take(0), source@));
    assert(link_views(plan.link_list@) =~= planned_links(all.take(0), source@, target@));
    while rest.len() > 0
        invariant
            0 <= n <= all.len(),
            rest@ == all.skip(n),
            plan.well_formed(),
            plan.source_root@ == source@,
            plan.target_root@ == target@,
            plan.total_size == steps_sum(all.take(n), source@),
            file_views(plan.file_list@) == planned_files(all.take(n), source@),
            text::texts(plan.dir_list@) == planned_dirs(all.take(n), source@),
            link_views(plan.link_list@) == planned_links(all.take(n), source@, target@),
            forall|i: int| 0 <= i < n ==> scan_failure(#[trigger] all[i], source@) is None,
            steps_sum(all, source@) <= u64::MAX,
        decreases rest@.len(),
    {
        let step = rest.take_first();
        assert(step == all[n]);
        assert(rest@ =~= all.skip(n + 1));
        assert(all.take(n + 1).drop_last() =~= all.take(n));
        proof {
            lemma_steps_sum_grows(all, n + 1, source@);
        }
        match plan.take_step(step) {
            Ok(()) => {},
            Err(message) => {
                return Err(message);
            },
        }
        proof {
            n = n + 1;
        }
    }
    assert(all.take(n) =~= all);
    Ok(plan)
}

/// The bytes that a number of steps add up to.
pub open spec fn steps_sum(steps: Seq<ScanStep>, source: Seq<char>) -> int
    decreases steps.len(),
{
    if steps.len() == 0 {
        0
    } else {
        steps_sum(steps.drop_last(), source) + match steps.last() {
            ScanStep::Entry(entry) => entry_size(entry, source) as int,
            _ => 0,
        }
    }
}

proof fn lemma_steps_sum_grows(steps: Seq<ScanStep>, n: int, source: Seq<char>)
    requires
        0 <= n <= steps.len(),
    ensures
        steps_sum(steps.take(n), source) <= steps_sum(steps, source),
    decreases steps.len(),
{
    if n == steps.len() {
        assert(steps.take(n) =~= steps);
    } else {
        lemma_steps_sum_grows(steps.drop_last(), n, source);
        assert(steps.drop_last().take(n) =~= steps.take(n));
    }
}

/// The files that a number of steps plan.
pub open spec fn planned_files(steps: Seq<ScanStep>, source: Seq<char>) -> Seq<PlannedFileView>
    decreases steps.len(),
{
    if steps.len() == 0 {
        seq![]
    } else {
        let before = planned_files(steps.drop_last(), source);
        match steps.last() {
            ScanStep::Entry(entry) if is_copied_file(entry, source) => before.push(
                planned_file(entry, source),
            ),
            _ => before,
        }
    }
}

/// The directories that a number of steps plan.
pub open spec fn planned_dirs(steps: Seq<ScanStep>, source: Seq<char>) -> Seq<Seq<char>>
    decreases steps.len(),
{
    if steps.len() == 0 {
        seq![]
    } else {
        let before = planned_dirs(steps.drop_last(), source);
        match steps.last() {
            ScanStep::Entry(entry) if is_made_directory(entry, source) => before.push(
                entry_path(entry, source),
            ),
            _ => before,
        }
    }
}

/// The links that a number of steps plan.
pub open spec fn planned_links(
    steps: Seq<ScanStep>,
    source: Seq<char>,
    target: Seq<char>,
) -> Seq<PlannedLinkView>
    decreases steps.len(),
{
    if steps.len() == 0 {
        seq![]
    } else {
        let before = planned_links(steps.drop_last(), source, target);
        match steps.last() {
            ScanStep::Entry(entry) => match relinked_to(entry, source, target) {
                Some(place) => before.push(planned_link(entry, source, place)),
                None => before,
            },
            _ => before,
        }
    }
}

/// Whether no two entries have the same components, and all stand in the
/// source.
pub open spec fn walks_each_once(steps: Seq<ScanStep>, source: Seq<char>) -> bool {
    &&& forall|i: int|
        0 <= i < steps.len() ==> ((#[trigger] steps[i]) matches ScanStep::Entry(entry)
            ==> path::lies_in(entry.path@, source))
    &&& forall|i: int, j: int|
        0 <= i < j < steps.len() && (#[trigger] steps[i]) is Entry && (#[trigger] steps[j]) is Entry
            ==> path::components(steps[i]->Entry_0.path@) != path::components(
            steps[j]->Entry_0.path@,
        )
}

/// Whether a path can be one below a root: it is not empty and does not begin
/// with a separator.
pub open spec fn is_relative(path: Seq<char>, source: Seq<char>) -> bool {
    path.len() > 0 && !path::separators(path::is_verbatim(source)).holds(path[0])
}

/// The path under which an entry below a source at a root is planned, be it a
/// file, a directory or a link, is relative, and it is that of no other entry.
pub proof fn law_entries_have_paths_of_their_own(a: ScanEntry, b: ScanEntry, source: Seq<char>)
    requires
        path::begins_at_root(source),
        is_below(a, source),
        is_below(b, source),
    ensures
        is_relative(entry_path(a, source), source),
        path::components(a.path@) != path::components(b.path@) ==> entry_path(a, source)
            != entry_path(b, source),
{
    path::law_rest_holds_the_other_names(a.path@, source);
    path::law_rest_holds_the_other_names(b.path@, source);
}

/// A planned file stems from a step.
proof fn lemma_file_stems_from_step(steps: Seq<ScanStep>, source: Seq<char>, k: int)
    requires
        0 <= k < planned_files(steps, source).len(),
    ensures
        exists|s: int|
            0 <= s < steps.len() && (#[trigger] steps[s]) is Entry && is_copied_file(
                steps[s]->Entry_0,
                source,
            ) && planned_files(steps, source)[k] == planned_file(steps[s]->Entry_0, source),
    decreases steps.len(),
{
    let before = planned_files(steps.drop_last(), source);
    if k < before.len() {
        lemma_file_stems_from_step(steps.drop_last(), source, k);
        let s = choose|s: int|
            0 <= s < steps.drop_last().len() && (#[trigger] steps.drop_last()[s]) is Entry
                && is_copied_file(steps.drop_last()[s]->Entry_0, source) && before[k]
                == planned_file(steps.drop_last()[s]->Entry_0, source);
        assert(steps[s] == steps.drop_last()[s]);
    } else {
        assert(steps[steps.len() - 1] is Entry);
    }
}

/// Where the walk of a tree yields no place twice, no file is planned twice,
/// and the planned paths lead below the roots.
pub proof fn law_planned_files_are_distinct(steps: Seq<ScanStep>, source: Seq<char>)
    requires
        path::begins_at_root(source),
        walks_each_once(steps, source),
    ensures
        forall|i: int|
            0 <= i < planned_files(steps, source).len() ==> is_relative(
                (#[trigger] planned_files(steps, source)[i]).relative_path,
                source,
            ),
        forall|i: int, j: int|
            0 <= i < j < planned_files(steps, source).len() ==> (#[trigger] planned_files(
                steps,
                source,
            )[i]).relative_path != (#[trigger] planned_files(steps, source)[j]).relative_path,
    decreases steps.len(),
{
    if steps.len() > 0 {
        let shorter = steps.drop_last();
        assert(walks_each_once(shorter, source)) by {
            assert(forall|i: int| 0 <= i < shorter.len() ==> shorter[i] == steps[i]);
        }
        law_planned_files_are_distinct(shorter, source);
        let before = planned_files(shorter, source);
        let after = planned_files(steps, source);
        assert forall|i: int| 0 <= i < after.len() implies is_relative(
            (#[trigger] after[i]).relative_path,
            source,
        ) by {
            if i == before.len() {
                let last = steps.last()->Entry_0;
                law_entries_have_paths_of_their_own(last, last, source);
            } else {
                assert(after[i] == before[i]);
            }
        }
        assert forall|i: int, j: int| 0 <= i < j < after.len() implies (
        #[trigger] after[i]).relative_path != (#[trigger] after[j]).relative_path by {
            assert(after[i] == before[i]);
            if j == before.len() {
                lemma_file_stems_from_step(shorter, source, i);
                let s = choose|s: int|
                    0 <= s < shorter.len() && (#[trigger] shorter[s]) is Entry && is_copied_file(
                        shorter[s]->Entry_0,
                        source,
                    ) && before[i] == planned_file(shorter[s]->Entry_0, source);
                assert(shorter[s] == steps[s]);
                assert(steps[steps.len() - 1] is Entry);
                law_entries_have_paths_of_their_own(steps[s]->Entry_0, steps.last()->Entry_0, source);
            } else {
                assert(after[j] == before[j]);
            }
        }
    }
}

pub open spec fn occupied_message(src: Seq<char>) -> Seq<char> {
    "复制过程中文件被程序占用: "@ + src + "\n请关闭相关程序后重试。"@
}

/// What the user is told of a file that could not be copied.
pub open spec fn copy_error_message(src: Seq<char>, code: u32) -> Seq<char> {
    if code == 5 || code == 32 {
        occupied_message(src)
    } else if code == 3 || code == 206 {
        "复制文件失败 "@ + src + "（错误码 "@ + text::decimal(code as nat)
            + "：路径不存在或路径过长）\n请确认源文件与目标目录仍然存在；若目标目录被移动或删除，请重新选择迁移目录后重试。"@
    } else {
        "复制文件失败 "@ + src + "（错误码 "@ + text::decimal(code as nat) + "）"@
    }
}

fn occupied_text(src: &str) -> (r: String)
    ensures
        r@ == occupied_message(src@),
{
    let mut message = "复制过程中文件被程序占用: ".to_owned();
    message.push_str(src);
    message.push_str("\n请关闭相关程序后重试。");
    message
}

/// What the user is told of a file that could not be copied.
pub fn map_copy_error(src: &str, code: u32) -> (r: String)
    ensures
        r@ == copy_error_message(src@, code),
{
    if code == 5 || code == 32 {
        return occupied_text(src);
    }
    let digits = text::decimal_text(code as u64);
    let mut message = "复制文件失败 ".to_owned();
    message.push_str(src);
    message.push_str("（错误码 ");
    message.push_str(digits.as_str());
    if code == 3 || code == 206 {
        message.push_str("：路径不存在或路径过长）\n请确认源文件与目标目录仍然存在；若目标目录被移动或删除，请重新选择迁移目录后重试。");
    } else {
        message.push_str("）");
    }
    message
}

/// What the user is told of a file whose size could not be read.
pub fn metadata_failure(src: &str, permission_denied: bool, reason: &str) -> (r: String)
    ensures
        r@ == if permission_denied {
            occupied_message(src@)
        } else {
            "读取文件元数据失败 "@ + src@ + ": "@ + reason@
        },
{
    if permission_denied {
        return occupied_text(src);
    }
    let mut message = "读取文件元数据失败 ".to_owned();
    message.push_str(src);
    message.push_str(": ");
    message.push_str(reason);
    message
}

/// How one attempt to copy a file went.
#[derive(Debug, Clone, Copy, PartialEq, Eq, Structural)]
pub enum CopyAttempt {
    Copied,
    Failed { code: u32 },
}

/// What is done after an attempt to copy a file.
#[derive(Debug)]
pub enum CopyDecision {
    /// The file is copied.
    Finished,
    /// Delete what was written and try again through the cache.
    RetryBuffered,
    /// Delete what was written; the user has cancelled.
    Cancelled { message: String },
    Failed { message: String },
}

/// The code of an attempt that was aborted because the user cancelled.
pub const ERROR_REQUEST_ABORTED: u32 = 1235;

/// Whether a file of the given size is first copied past the cache.
pub fn starts_unbuffered(size: u64) -> (r: bool)
    ensures
        r == (size >= NO_BUFFERING_THRESHOLD),
{
    size >= NO_BUFFERING_THRESHOLD
}

/// The flags of an attempt.
pub fn copy_flags(unbuffered: bool) -> (r: u32)
    ensures
        r == if unbuffered {
            COPY_FILE_ALLOW_DECRYPTED_UNBUFFERED
        } else {
            COPY_FILE_ALLOW_DECRYPTED_DESTINATION
        },
{
    if unbuffered {
        COPY_FILE_ALLOW_DECRYPTED_UNBUFFERED
    } else {
        COPY_FILE_ALLOW_DECRYPTED_DESTINATION
    }
}

/// What is done after an attempt. Only an attempt past the cache is repeated,
/// and then through the cache: no file is tried more than twice.
pub fn copy_file_with_cancel(src: &str, unbuffered: bool, attempt: CopyAttempt) -> (r: CopyDecision)
    ensures
        match attempt {
            CopyAttempt::Copied => r is Finished,
            CopyAttempt::Failed { code } => if code == ERROR_REQUEST_ABORTED {
                r matches CopyDecision::Cancelled { message } && message@ == "用户取消了迁移"@
            } else if unbuffered {
                r is RetryBuffered
            } else {
                r matches CopyDecision::Failed { message } && message@ == copy_error_message(
                    src@,
                    code,
                )
            },
        },
{
    match attempt {
        CopyAttempt::Copied => CopyDecision::Finished,
        CopyAttempt::Failed { code } => if code == ERROR_REQUEST_ABORTED {
            CopyDecision::Cancelled { message: "用户取消了迁移".to_owned() }
        } else if unbuffered {
            CopyDecision::RetryBuffered
        } else {
            CopyDecision::Failed { message: map_copy_error(src, code) }
        },
    }
}

/// How many bytes of a file that is being copied have been counted.
#[derive(Clone, Copy, Debug, PartialEq, Eq, Structural)]
pub struct FileCount {
    pub size: u64,
    pub counted: u64,
}

impl FileCount {
    /// Whether no more bytes have been counted than the file has.
    pub open spec fn well_formed(self) -> bool {
        self.counted <= self.size
    }

    pub fn new(size: u64) -> (r: Self)
        ensures
            r.well_formed(),
            r.size == size,
            r.counted == 0,
    {
        FileCount { size, counted: 0 }
    }

    /// The bytes that count once so many have been transferred. What goes back
    /// counts as nothing, nor does what goes beyond the file's size.
    pub open spec fn counted_at(self, transferred: u64) -> u64 {
        if transferred <= self.counted {
            self.counted
        } else if transferred <= self.size {
            transferred
        } else {
            self.size
        }
    }

    /// The bytes by which a file's transfer has grown since the last report.
    pub fn transfer_delta(&mut self, transferred: u64) -> (r: u64)
        requires
            old(self).well_formed(),
        ensures
            final(self).well_formed(),
            final(self).size == old(self).size,
            final(self).counted == old(self).counted_at(transferred),
            r == final(self).counted - old(self).counted,
    {
        let before: u64 = self.counted;
        if transferred > self.counted {
            self.counted = if transferred <= self.size {
                transferred
            } else {
                self.size
            };
        }
        self.counted - before
    }

    /// What is taken back from the number of copied bytes when the file is
    /// copied once more from its beginning: all that was counted of it.
    pub fn take_back(&mut self) -> (r: u64)
        requires
            old(self).well_formed(),
        ensures
            final(self).well_formed(),
            final(self).size == old(self).size,
            final(self).counted == 0,
            r == old(self).counted,
    {
        let r: u64 = self.counted;
        self.counted = 0;
        r
    }

    /// What is counted once the file is copied, beyond what was counted while
    /// it was: the bytes that are added to the number of copied ones, and that
    /// number afterwards. It is absent where all bytes of the file have been
    /// counted. `copied` is the number of copied bytes before.
    pub fn count_rest(&self, copied: u64) -> (r: Option<(u64, u64)>)
        requires
            self.well_formed(),
            copied + (self.size - self.counted) <= u64::MAX,
        ensures
            r == if self.counted < self.size {
                Some(
                    (
                        (self.size - self.counted) as u64,
                        (copied + (self.size - self.counted)) as u64,
                    ),
                )
            } else {
                None
            },
    {
        if self.counted < self.size {
            let rest: u64 = self.size - self.counted;
            Some((rest, copied + rest))
        } else {
            None
        }
    }
}

/// What happens while a file is copied.
pub enum CountStep {
    /// So many bytes of it have been transferred.
    Transferred(u64),
    /// It is copied once more from its beginning.
    Again,
}

/// The count of a file of the given size after a number of steps.
pub open spec fn count_after(size: u64, steps: Seq<CountStep>) -> FileCount
    decreases steps.len(),
{
    if steps.len() == 0 {
        FileCount { size, counted: 0 }
    } else {
        let before = count_after(size, steps.drop_last());
        match steps.last() {
            CountStep::Transferred(n) => FileCount { size, counted: before.counted_at(n) },
            CountStep::Again => FileCount { size, counted: 0 },
        }
    }
}

/// The bytes that a number of steps add to the number of copied ones, without
/// those that they take back.
pub open spec fn bytes_added(size: u64, steps: Seq<CountStep>) -> int
    decreases steps.len(),
{
    if steps.len() == 0 {
        0
    } else {
        let before = count_after(size, steps.drop_last());
        bytes_added(size, steps.drop_last()) + match steps.last() {
            CountStep::Transferred(n) => before.counted_at(n) - before.counted,
            CountStep::Again => 0 - before.counted,
        }
    }
}

/// However a file's transfer is reported, and however often it is begun again,
/// no more bytes are counted of it than it has, and with what is counted once
/// it is copied they are as many as it has.
pub proof fn law_counted_bytes_sum_to_size(size: u64, steps: Seq<CountStep>)
    ensures
        count_after(size, steps).size == size,
        count_after(size, steps).well_formed(),
        0 <= bytes_added(size, steps) <= size,
        bytes_added(size, steps) + (size - count_after(size, steps).counted) == size,
    decreases steps.len(),
{
    if steps.len() > 0 {
        law_counted_bytes_sum_to_size(size, steps.drop_last());
    }
}

/// Whether a directory is made at the target: it is one of the plan, or a file
/// or a link stands in it.
pub open spec fn needs_directory(plan: CopyPlan, dir: Seq<char>) -> bool {
    ||| list::holds_text(plan.dir_list@, dir)
    ||| dir.len() > 0 && exists|i: int|
        0 <= i < plan.file_list@.len() && (#[trigger] plan.file_list@[i]).parent@ == dir
    ||| dir.len() > 0 && exists|i: int|
        0 <= i < plan.link_list@.len() && (#[trigger] plan.link_list@[i]).parent@ == dir
}

/// The directories that have to be made before anything is copied, each once,
/// in the order of their components. No link is among them for its own sake: a directory in
/// its place would be in its way.
pub fn directories_to_create(plan: &CopyPlan) -> (r: Vec<String>)
    ensures
        forall|d: Seq<char>| #[trigger] list::holds_text(r@, d) ==> needs_directory(*plan, d),
        forall|d: Seq<char>| #[trigger] needs_directory(*plan, d) ==> is_listed(r@, d),
        is_in_order(r@),
{
    let mut all = list::copy_texts(&plan.dir_list);
    let mut i: usize = 0;
    while i < plan.file_list.len()
        invariant
            i <= plan.file_list@.len(),
            forall|d: Seq<char>| #[trigger]
                list::holds_text(all@, d) <==> (list::holds_text(plan.dir_list@, d) || (d.len() > 0
                    && exists|j: int|
                    0 <= j < i && (#[trigger] plan.file_list@[j]).parent@ == d)),
        decreases plan.file_list@.len() - i,
    {
        if !plan.file_list[i].parent.as_str().is_empty() {
            let ghost before = all@;
            let parent = plan.file_list[i].parent.clone();
            all.push(parent);
            proof {
                list::lemma_holds_text_push(before, parent);
            }
        }
        i = i + 1;
    }
    let ghost with_files = all@;
    let mut k: usize = 0;
    while k < plan.link_list.len()
        invariant
            k <= plan.link_list@.len(),
            forall|d: Seq<char>| #[trigger]
                list::holds_text(all@, d) <==> (list::holds_text(with_files, d) || (d.len() > 0
                    && exists|j: int|
                    0 <= j < k && (#[trigger] plan.link_list@[j]).parent@ == d)),
        decreases plan.link_list@.len() - k,
    {
        if !plan.link_list[k].parent.as_str().is_empty() {
            let ghost before = all@;
            let parent = plan.link_list[k].parent.clone();
            all.push(parent);
            proof {
                list::lemma_holds_text_push(before, parent);
            }
        }
        k = k + 1;
    }
    proof {
        assert forall|d: Seq<char>| #[trigger] needs_directory(*plan, d) implies list::holds_text(
            all@,
            d,
        ) by {}
    }
    sorted_paths(all)
}

impl list::Ranked for PlannedFile {
    /// Larger files come first.
    open spec fn before(self, other: Self) -> bool {
        self.size > other.size
    }

    proof fn lemma_ranks_transitive(a: Self, b: Self, c: Self) {
    }

    proof fn lemma_ranks_asymmetric(a: Self, b: Self) {
    }

    fn precedes(&self, other: &Self) -> (r: bool) {
        self.size > other.size
    }
}

/// The files that are copied one at a time.
pub open spec fn large_files(files: Seq<PlannedFile>) -> Seq<PlannedFile> {
    files.filter(|f: PlannedFile| f.size > LARGE_FILE_THRESHOLD)
}

/// The files that are copied side by side.
pub open spec fn small_files(files: Seq<PlannedFile>) -> Seq<PlannedFile> {
    files.filter(|f: PlannedFile| f.size <= LARGE_FILE_THRESHOLD)
}

/// Parts the large files from the small ones. The large ones are ordered by
/// falling size; files of one size, and the small ones, keep their order.
pub fn partition_files(files: Vec<PlannedFile>) -> (r: (Vec<PlannedFile>, Vec<PlannedFile>))
    ensures
        list::is_stable_sort(large_files(files@), r.0@),
        r.1@ == small_files(files@),
{
    let ghost all = files@;
    let ghost mut n: int = 0;
    let mut rest = list::Queue::of(files);
    let mut large: Vec<PlannedFile> = Vec::new();
    let mut small: Vec<PlannedFile> = Vec::new();
    assert(rest@ =~= all.skip(0));
    proof {
        reveal(Seq::filter);
    }
    while rest.len() > 0
        invariant
            0 <= n <= all.len(),
            rest@ == all.skip(n),
            large@ == large_files(all.take(n)),
            small@ == small_files(all.take(n)),
        decreases rest@.len(),
    {
        let file = rest.take_first();
        assert(file == all[n]);
        assert(rest@ =~= all.skip(n + 1));
        assert(all.take(n + 1).drop_last() =~= all.take(n));
        proof {
            reveal(Seq::filter);
        }
        if file.size > LARGE_FILE_THRESHOLD {
            large.push(file);
        } else {
            small.push(file);
        }
        proof {
            n = n + 1;
        }
    }
    assert(all.take(n) =~= all);
    (list::stable_sort(large), small)
}

/// Every byte of a plan is copied among the large or among the small files,
/// and no file is among both.
pub proof fn law_every_file_is_copied_once(files: Seq<PlannedFile>)
    ensures
        sizes_sum(large_files(files)) + sizes_sum(small_files(files)) == sizes_sum(files),
        large_files(files).len() + small_files(files).len() == files.len(),
    decreases files.len(),
{
    reveal(Seq::filter);
    if files.len() > 0 {
        law_every_file_is_copied_once(files.drop_last());
        let large = large_files(files.drop_last());
        let small = small_files(files.drop_last());
        assert(large.push(files.last()).drop_last() =~= large);
        assert(small.push(files.last()).drop_last() =~= small);
    }
}

} // verus!
