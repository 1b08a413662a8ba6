//! Removing an application without its uninstaller: its registry entry, if that
//! is safe, and its directory, if it is certain that it is the application's.

#![verifier::loop_isolation(false)]

use vstd::prelude::*;

use super::keywords::{sanitize_search_text, sanitized};
use super::registry::{
    below, is_safe_registry_cleanup_target, key_of, may_delete_key, parse_registry_path,
    path_below, uninstall_root_table, uninstall_roots, Hive, KeyFacts,
};
use super::residue::{is_blacklisted_path, is_protected_path};
use super::uninstall_search::plain_name;
use super::uninstaller::{stated, UninstallInput, UninstallResult};
use crate::path;
use crate::text;
use crate::text::CharSet;

verus! {

/// How deep a path that is removed lies at least, the drive not counted.
pub const LEAST_DEPTH: usize = 3;

/// How many levels deep a path lies below the root of its drive.
pub open spec fn depth_of(path: Seq<char>) -> nat {
    path::names_below_root(path).len()
}

/// The directory's name in lower case; empty where it has none.
pub open spec fn directory_name(path: Seq<char>) -> Seq<char> {
    match path::last_name(path) {
        Some(name) => text::lowercase(name),
        None => ""@,
    }
}

/// Whether one of the words stands in a name.
pub open spec fn holds_word(name: Seq<char>, words: Seq<Seq<char>>) -> bool {
    exists|i: int| 0 <= i < words.len() && text::contains_text(name, #[trigger] words[i])
}

/// Whether a directory's name and an application's go together: one contains
/// the other, or a word of the application's name stands in the directory's.
/// Both are in lower case.
pub open spec fn names_agree(dir: Seq<char>, app: Seq<char>) -> bool {
    text::contains_text(dir, app) || text::contains_text(app, dir) || holds_word(
        dir,
        text::words(app),
    )
}

/// Why a path must not be removed; absent where it may be.
pub open spec fn objection(path: Seq<char>, present: bool, app_id: Seq<char>) -> Option<
    Seq<char>,
> {
    if !present {
        Some("目标路径不存在: "@ + path)
    } else if is_protected_path(path) {
        Some("拒绝删除系统/受保护目录: "@ + path + "。该目录在黑名单中。"@)
    } else if depth_of(path) < LEAST_DEPTH {
        Some(
            "拒绝删除顶层/浅层目录 (深度="@ + text::decimal(depth_of(path)) + "): "@ + path
                + "。至少需要 3 级路径深度。"@,
        )
    } else if app_id.len() > 0 && !names_agree(directory_name(path), text::lowercase(app_id)) {
        Some(
            "安全校验未通过：目录名 '"@ + directory_name(path) + "' 与应用名 '"@ + app_id
                + "' 无匹配关系，拒绝删除以防误删无关应用。"@,
        )
    } else {
        None
    }
}

fn do_names_agree(dir: &str, app: &str) -> (r: bool)
    ensures
        r == names_agree(dir@, app@),
{
    if text::contains(dir, app) || text::contains(app, dir) {
        return true;
    }
    let words = text::split_words(app);
    let mut i: usize = 0;
    while i < words.len()
        invariant
            i <= words@.len(),
            forall|j: int|
                0 <= j < i ==> !text::contains_text(dir@, #[trigger] text::texts(words@)[j]),
        decreases words@.len() - i,
    {
        assert(text::texts(words@)[i as int] == words@[i as int]@);
        if text::contains(dir, words[i].as_str()) {
            return true;
        }
        i = i + 1;
    }
    false
}

/// Whether a path may be removed as the directory of an application.
pub fn validate_deletion_target(path: &str, present: bool, app_id: &str) -> (r: Result<(), String>)
    ensures
        match r {
            Ok(()) => objection(path@, present, app_id@) is None,
            Err(reason) => objection(path@, present, app_id@) == Some(reason@),
        },
{
    if !present {
        let mut reason = "目标路径不存在: ".to_owned();
        reason.push_str(path);
        return Err(reason);
    }
    if is_blacklisted_path(path) {
        let mut reason = "拒绝删除系统/受保护目录: ".to_owned();
        reason.push_str(path);
        reason.push_str("。该目录在黑名单中。");
        return Err(reason);
    }
    let names = path::names_below_root_of(path);
    assert(text::texts(names@).len() == names@.len());
    if names.len() < LEAST_DEPTH {
        let depth = text::decimal_text(names.len() as u64);
        let mut reason = "拒绝删除顶层/浅层目录 (深度=".to_owned();
        reason.push_str(depth.as_str());
        reason.push_str("): ");
        reason.push_str(path);
        reason.push_str("。至少需要 3 级路径深度。");
        return Err(reason);
    }
    if !app_id.is_empty() {
        let dir = match path::last_name_of(path) {
            Some(name) => text::to_lowercase(name.as_str()),
            None => "".to_owned(),
        };
        let app = text::to_lowercase(app_id);
        if !do_names_agree(dir.as_str(), app.as_str()) {
            let mut reason = "安全校验未通过：目录名 '".to_owned();
            reason.push_str(dir.as_str());
            reason.push_str("' 与应用名 '");
            reason.push_str(app_id);
            reason.push_str("' 无匹配关系，拒绝删除以防误删无关应用。");
            return Err(reason);
        }
    }
    Ok(())
}

/// An entry under one of the uninstall roots.
#[derive(Debug)]
pub struct ListedEntry {
    /// The name of the entry's key.
    pub name: String,
    pub display_name: String,
    /// Where the application lies by this entry.
    pub place: Option<String>,
    pub facts: KeyFacts,
}

/// What is to be done next.
#[derive(Debug)]
pub enum RemovalStage {
    /// Look at the key that the input names.
    InspectNamed { hive: Hive, path: String },
    DeleteNamed { hive: Hive, path: String },
    /// List the entries under one of the uninstall roots.
    ListRoot(usize),
    /// Delete a key under one of the uninstall roots.
    DeleteEntry { root: usize, path: String },
    /// Look at the application's directory.
    InspectPlace(String),
    /// Remove it.
    RemovePlace(String),
    Removed,
    Refused(String),
}

/// What is to be done next, as a value.
pub enum StageView {
    InspectNamed(Hive, Seq<char>),
    DeleteNamed(Hive, Seq<char>),
    ListRoot(int),
    DeleteEntry(int, Seq<char>),
    InspectPlace(Seq<char>),
    RemovePlace(Seq<char>),
    Removed,
    Refused(Seq<char>),
}

impl View for RemovalStage {
    type V = StageView;

    open spec fn view(&self) -> StageView {
        match self {
            RemovalStage::InspectNamed { hive, path } => StageView::InspectNamed(*hive, path@),
            RemovalStage::DeleteNamed { hive, path } => StageView::DeleteNamed(*hive, path@),
            RemovalStage::ListRoot(root) => StageView::ListRoot(*root as int),
            RemovalStage::DeleteEntry { root, path } => StageView::DeleteEntry(
                *root as int,
                path@,
            ),
            RemovalStage::InspectPlace(path) => StageView::InspectPlace(path@),
            RemovalStage::RemovePlace(path) => StageView::RemovePlace(path@),
            RemovalStage::Removed => StageView::Removed,
            RemovalStage::Refused(reason) => StageView::Refused(reason@),
        }
    }
}

/// What doing it led to.
#[derive(Debug)]
pub enum RemovalFact {
    /// What the named key holds, and where the application lies by it; the
    /// place is absent where the key cannot be opened.
    Key { facts: KeyFacts, place: Option<String> },
    /// The entries under the root that can be opened; none where the root
    /// itself cannot.
    Entries(Vec<ListedEntry>),
    Deleted(bool),
    /// Whether the directory exists.
    Place { present: bool },
    /// Why the directory could not be removed; absent where it was.
    Removal(Option<String>),
}

/// The removal of an application in progress.
#[derive(Debug)]
pub struct ForceRemoval {
    pub app_id: Option<String>,
    pub use_recycle_bin: bool,
    pub stage: RemovalStage,
    pub install_location: Option<String>,
    pub deleted_registry: bool,
    pub deleted_files: bool,
}

/// The removal of an application in progress, as a value.
#[verifier::ext_equal]
pub struct RemovalView {
    pub app_id: Option<Seq<char>>,
    pub use_recycle_bin: bool,
    pub stage: StageView,
    pub install_location: Option<Seq<char>>,
    pub deleted_registry: bool,
    pub deleted_files: bool,
}

impl View for ForceRemoval {
    type V = RemovalView;

    open spec fn view(&self) -> RemovalView {
        RemovalView {
            app_id: text::view_of(self.app_id),
            use_recycle_bin: self.use_recycle_bin,
            stage: self.stage@,
            install_location: text::view_of(self.install_location),
            deleted_registry: self.deleted_registry,
            deleted_files: self.deleted_files,
        }
    }
}

/// Which entry under a root is the application's: the first that bears its
/// name. Their number stands for none.
pub open spec fn entry_position(entries: Seq<ListedEntry>, name: Seq<char>, i: int) -> int
    decreases entries.len() - i,
{
    if i >= entries.len() || i < 0 || plain_name(entries[i].display_name@) == name {
        i
    } else {
        entry_position(entries, name, i + 1)
    }
}

impl RemovalView {
    /// The end: something was removed, or there was nothing to remove.
    pub open spec fn ended(self) -> RemovalView {
        RemovalView {
            stage: if self.deleted_files || self.deleted_registry {
                StageView::Removed
            } else {
                StageView::Refused(
                    "未找到可清理的文件或注册表项。应用可能已被完全卸载。"@,
                )
            },
            ..self
        }
    }

    /// The entries under the roots from one on are searched next, if there is a
    /// name to search for; then the directory's turn comes.
    pub open spec fn seeking(self, root: int) -> RemovalView {
        if self.app_id is Some && root < 3 {
            RemovalView { stage: StageView::ListRoot(root), ..self }
        } else {
            match self.install_location {
                Some(path) => RemovalView { stage: StageView::InspectPlace(path), ..self },
                None => self.ended(),
            }
        }
    }

    /// A place is taken over where none is known yet.
    pub open spec fn with_place(self, place: Option<Seq<char>>) -> RemovalView {
        RemovalView {
            install_location: if self.install_location is Some {
                self.install_location
            } else {
                place
            },
            ..self
        }
    }

    /// The removal after what its stage led to. A fact that does not fit the
    /// stage changes nothing.
    pub open spec fn after(self, fact: RemovalFact) -> RemovalView {
        match self.stage {
            StageView::InspectNamed(hive, path) => match fact {
                RemovalFact::Key { facts, place } => {
                    let known = if facts.opens {
                        self.with_place(text::view_of(place))
                    } else {
                        self
                    };
                    if may_delete_key(path, facts, seq![]) {
                        RemovalView { stage: StageView::DeleteNamed(hive, path), ..known }
                    } else {
                        known.seeking(0)
                    }
                },
                _ => self,
            },
            StageView::DeleteNamed(hive, path) => match fact {
                RemovalFact::Deleted(deleted) => RemovalView {
                    deleted_registry: deleted,
                    ..self
                }.seeking(0),
                _ => self,
            },
            StageView::ListRoot(root) => match fact {
                RemovalFact::Entries(entries) => {
                    let at = entry_position(entries@, plain_name(self.app_id->0), 0);
                    if at < entries@.len() {
                        let entry = entries@[at];
                        let known = self.with_place(text::view_of(entry.place));
                        let path = below(uninstall_root_table()[root].path@, entry.name@);
                        if !self.deleted_registry && may_delete_key(path, entry.facts, seq![]) {
                            RemovalView { stage: StageView::DeleteEntry(root, path), ..known }
                        } else {
                            known.seeking(root + 1)
                        }
                    } else {
                        self.seeking(root + 1)
                    }
                },
                _ => self,
            },
            StageView::DeleteEntry(root, path) => match fact {
                RemovalFact::Deleted(deleted) => RemovalView {
                    deleted_registry: deleted,
                    ..self
                }.seeking(root + 1),
                _ => self,
            },
            StageView::InspectPlace(path) => match fact {
                RemovalFact::Place { present } => if !present {
                    self.ended()
                } else {
                    match objection(path, present, name_of(self.app_id)) {
                        Some(reason) => RemovalView { stage: StageView::Refused(reason), ..self },
                        None => RemovalView { stage: StageView::RemovePlace(path), ..self },
                    }
                },
                _ => self,
            },
            StageView::RemovePlace(path) => match fact {
                RemovalFact::Removal(None) => RemovalView { deleted_files: true, ..self }.ended(),
                RemovalFact::Removal(Some(error)) => RemovalView {
                    stage: StageView::Refused(
                        if self.use_recycle_bin {
                            "移入回收站失败: "@ + error@ + "。已拒绝直接删除以确保安全。"@
                        } else {
                            error@
                        },
                    ),
                    ..self
                },
                _ => self,
            },
            _ => self,
        }
    }
}

/// The name by which a directory is checked; empty where there is none.
pub open spec fn name_of(app_id: Option<Seq<char>>) -> Seq<char> {
    match app_id {
        Some(name) => name,
        None => ""@,
    }
}

/// The removal before anything was looked at.
pub open spec fn removal_of(input: UninstallInput) -> RemovalView {
    let start = RemovalView {
        app_id: text::view_of(input.app_id),
        use_recycle_bin: match input.use_recycle_bin {
            Some(b) => b,
            None => true,
        },
        stage: StageView::Removed,
        install_location: match input.install_location {
            Some(place) => if sanitized(place@).len() > 0 {
                Some(sanitized(place@))
            } else {
                None
            },
            None => None,
        },
        deleted_registry: false,
        deleted_files: false,
    };
    match input.registry_path {
        Some(path) => if stated(input.registry_path) is Some && key_of(path@) is Some {
            let key = key_of(path@)->0;
            RemovalView { stage: StageView::InspectNamed(key.0, key.1), ..start }
        } else {
            start.seeking(0)
        },
        None => start.seeking(0),
    }
}

/// Starts to remove an application without its uninstaller.
pub fn force_remove_application(input: UninstallInput) -> (r: ForceRemoval)
    ensures
        r@ == removal_of(input),
        r.is_valid(),
{
    let place = match &input.install_location {
        Some(place) => {
            let plain = sanitize_search_text(place.as_str());
            if plain.as_str().is_empty() {
                None
            } else {
                Some(plain)
            }
        },
        None => None,
    };
    let use_recycle_bin = match input.use_recycle_bin {
        Some(b) => b,
        None => true,
    };
    let mut removal = ForceRemoval {
        app_id: input.app_id,
        use_recycle_bin,
        stage: RemovalStage::Removed,
        install_location: place,
        deleted_registry: false,
        deleted_files: false,
    };
    if let Some(path) = &input.registry_path {
        let blank = text::trim(path.as_str(), CharSet::Whitespace);
        if !blank.as_str().is_empty() {
            if let Some(key) = parse_registry_path(path.as_str()) {
                removal.stage = RemovalStage::InspectNamed { hive: key.hive, path: key.path };
                return removal;
            }
        }
    }
    removal.seek(0);
    removal
}

impl ForceRemoval {
    /// A root that is searched is one of the three.
    pub open spec fn is_valid(self) -> bool {
        match self.stage@ {
            StageView::ListRoot(root) => root < 3 && self.app_id is Some,
            StageView::DeleteEntry(root, path) => root < 3,
            _ => true,
        }
    }

    fn end(&mut self)
        ensures
            final(self)@ == old(self)@.ended(),
            final(self).is_valid(),
    {
        self.stage = if self.deleted_files || self.deleted_registry {
            RemovalStage::Removed
        } else {
            RemovalStage::Refused(
                "未找到可清理的文件或注册表项。应用可能已被完全卸载。".to_owned(),
            )
        };
    }

    fn seek(&mut self, root: usize)
        ensures
            final(self)@ == old(self)@.seeking(root as int),
            final(self).is_valid(),
    {
        if self.app_id.is_some() && root < 3 {
            self.stage = RemovalStage::ListRoot(root);
            return;
        }
        let place = match &self.install_location {
            Some(path) => Some(path.clone()),
            None => None,
        };
        match place {
            Some(path) => {
                self.stage = RemovalStage::InspectPlace(path);
            },
            None => {
                self.end();
            },
        }
    }

    fn take_place(&mut self, place: &Option<String>)
        ensures
            final(self)@ == old(self)@.with_place(text::view_of(*place)),
            final(self).stage == old(self).stage,
            final(self).app_id == old(self).app_id,
    {
        if self.install_location.is_none() {
            self.install_location = match place {
                Some(place) => Some(place.clone()),
                None => None,
            };
        }
    }

    fn find_entry(&self, entries: &Vec<ListedEntry>) -> (r: usize)
        requires
            self.app_id is Some,
        ensures
            r == entry_position(entries@, plain_name(self@.app_id->0), 0),
            r <= entries@.len(),
    {
        let name = match &self.app_id {
            Some(name) => {
                let blank = text::trim(name.as_str(), CharSet::Whitespace);
                text::to_lowercase(blank.as_str())
            },
            None => "".to_owned(),
        };
        let mut i: usize = 0;
        while i < entries.len()
            invariant
                i <= entries@.len(),
                entry_position(entries@, name@, 0) == entry_position(entries@, name@, i as int),
            decreases entries@.len() - i,
        {
            let blank = text::trim(entries[i].display_name.as_str(), CharSet::Whitespace);
            let there = text::to_lowercase(blank.as_str());
            if text::same(there.as_str(), name.as_str()) {
                return i;
            }
            i = i + 1;
        }
        i
    }

    fn take_entries(&mut self, root: usize, entries: &Vec<ListedEntry>)
        requires
            old(self)@.stage == StageView::ListRoot(root as int),
            root < 3,
            old(self).app_id is Some,
        ensures
            forall|fact: RemovalFact|
                fact matches RemovalFact::Entries(given) && given@ == entries@
                    ==> final(self)@ == #[trigger] old(self)@.after(fact),
            final(self).is_valid(),
    {
        let at = self.find_entry(entries);
        if at < entries.len() {
            let entry = &entries[at];
            self.take_place(&entry.place);
            let roots = uninstall_roots();
            let path = path_below(roots[root].path, entry.name.as_str());
            let none: Vec<String> = Vec::new();
            assert(none@ =~= seq![]);
            if !self.deleted_registry && is_safe_registry_cleanup_target(
                path.as_str(),
                &entry.facts,
                &none,
            ) {
                self.stage = RemovalStage::DeleteEntry { root, path };
            } else {
                self.seek(root + 1);
            }
        } else {
            self.seek(root + 1);
        }
    }

    /// Takes what the stage led to.
    pub fn advance(&mut self, fact: &RemovalFact)
        requires
            old(self).is_valid(),
        ensures
            final(self)@ == old(self)@.after(*fact),
            final(self).is_valid(),
    {
        let ghost before = self@;
        match (&self.stage, fact) {
            (RemovalStage::InspectNamed { hive, path }, RemovalFact::Key { facts, place }) => {
                let hive = *hive;
                let path = path.clone();
                let none: Vec<String> = Vec::new();
                assert(none@ =~= seq![]);
                if facts.opens {
                    self.take_place(place);
                }
                if is_safe_registry_cleanup_target(path.as_str(), facts, &none) {
                    self.stage = RemovalStage::DeleteNamed { hive, path };
                } else {
                    self.seek(0);
                }
            },
            (RemovalStage::DeleteNamed { hive, path }, RemovalFact::Deleted(deleted)) => {
                self.deleted_registry = *deleted;
                self.seek(0);
            },
            (RemovalStage::ListRoot(root), RemovalFact::Entries(entries)) => {
                let root: usize = *root;
                self.take_entries(root, entries);
                assert(self@ == before.after(*fact));
            },
            (RemovalStage::DeleteEntry { root, path }, RemovalFact::Deleted(deleted)) => {
                let root: usize = *root;
                self.deleted_registry = *deleted;
                self.seek(root + 1);
            },
            (RemovalStage::InspectPlace(path), RemovalFact::Place { present }) => {
                let path = path.clone();
                if !*present {
                    self.end();
                } else {
                    let checked = match &self.app_id {
                        Some(name) => validate_deletion_target(
                            path.as_str(),
                            *present,
                            name.as_str(),
                        ),
                        None => validate_deletion_target(path.as_str(), *present, ""),
                    };
                    match checked {
                        Ok(()) => {
                            self.stage = RemovalStage::RemovePlace(path);
                        },
                        Err(reason) => {
                            self.stage = RemovalStage::Refused(reason);
                        },
                    }
                }
            },
            (RemovalStage::RemovePlace(path), RemovalFact::Removal(error)) => {
                match error {
                    None => {
                        self.deleted_files = true;
                        self.end();
                    },
                    Some(error) => {
                        let reason = if self.use_recycle_bin {
                            let mut r = "移入回收站失败: ".to_owned();
                            r.push_str(error.as_str());
                            r.push_str("。已拒绝直接删除以确保安全。");
                            r
                        } else {
                            error.clone()
                        };
                        self.stage = RemovalStage::Refused(reason);
                    },
                }
            },
            _ => {},
        }
    }

    /// What the removal led to; absent where it has not ended.
    pub fn conclude(&self) -> (r: Option<Result<UninstallResult, String>>)
        ensures
            match r {
                Some(Ok(result)) => self@.stage is Removed && result.success && result.message@
                    == removal_message(self@) && result.command is Some && result.command->0@
                    == "force_remove"@ && result.leftovers@.len() == 0,
                Some(Err(reason)) => self@.stage == StageView::Refused(reason@),
                None => !(self@.stage is Removed) && !(self@.stage is Refused),
            },
    {
        match &self.stage {
            RemovalStage::Removed => {
                let mut message = "强制删除完成：".to_owned();
                if self.deleted_files {
                    message.push_str("文件已删除");
                }
                if self.deleted_files && self.deleted_registry {
                    message.push_str("，");
                }
                if self.deleted_registry {
                    message.push_str("注册表已清理");
                }
                message.push_str("。");
                if self.install_location.is_some() {
                    message.push_str("建议运行残留扫描彻底清理。");
                }
                if self.use_recycle_bin {
                    message.push_str("（已移入回收站）");
                }
                assert(message@ =~= removal_message(self@));
                Some(
                    Ok(
                        UninstallResult {
                            success: true,
                            message,
                            command: Some("force_remove".to_owned()),
                            leftovers: Vec::new(),
                        },
                    ),
                )
            },
            RemovalStage::Refused(reason) => Some(Err(reason.clone())),
            _ => None,
        }
    }

    /// What the operation log says of the removal.
    pub fn log_text(&self) -> (r: String)
        ensures
            r@ == "强制删除完成，文件已删除:"@ + bool_text(self@.deleted_files)
                + ", 注册表已清理:"@ + bool_text(self@.deleted_registry),
    {
        let mut r = "强制删除完成，文件已删除:".to_owned();
        r.push_str(if self.deleted_files { "true" } else { "false" });
        r.push_str(", 注册表已清理:");
        r.push_str(if self.deleted_registry { "true" } else { "false" });
        r
    }
}

pub open spec fn bool_text(b: bool) -> Seq<char> {
    if b {
        "true"@
    } else {
        "false"@
    }
}

/// What is said of a removal that has succeeded.
pub open spec fn removal_message(removal: RemovalView) -> Seq<char> {
    let parts = if removal.deleted_files && removal.deleted_registry {
        "文件已删除"@ + "，"@ + "注册表已清理"@
    } else if removal.deleted_files {
        "文件已删除"@
    } else if removal.deleted_registry {
        "注册表已清理"@
    } else {
        seq![]
    };
    "强制删除完成："@ + parts + "。"@ + (if removal.install_location is Some {
        "建议运行残留扫描彻底清理。"@
    } else {
        seq![]
    }) + (if removal.use_recycle_bin {
        "（已移入回收站）"@
    } else {
        seq![]
    })
}

/// A directory is removed only after it was looked at: it exists, is not the
/// system's, lies three levels deep or deeper, and its name agrees with the
/// application's.
pub proof fn law_only_the_application_directory_is_removed(
    removal: RemovalView,
    fact: RemovalFact,
    path: Seq<char>,
)
    requires
        !(removal.stage is RemovePlace),
        removal.after(fact).stage == StageView::RemovePlace(path),
    ensures
        fact matches RemovalFact::Place { present } && present,
        !is_protected_path(path),
        path::names_below_root(path).len() >= 3,
        name_of(removal.app_id).len() > 0 ==> names_agree(
            directory_name(path),
            text::lowercase(name_of(removal.app_id)),
        ),
{
}

/// A registry key is deleted only after it was looked at: it may be deleted
/// though nothing is known of the application, so it is empty.
pub proof fn law_only_empty_keys_are_deleted(removal: RemovalView, fact: RemovalFact)
    requires
        !(removal.stage is DeleteNamed),
        !(removal.stage is DeleteEntry),
        removal.after(fact).stage is DeleteNamed || removal.after(fact).stage is DeleteEntry,
    ensures
        match removal.after(fact).stage {
            StageView::DeleteNamed(hive, path) => fact matches RemovalFact::Key { facts, place }
                && facts.is_empty && may_delete_key(path, facts, seq![]),
            StageView::DeleteEntry(root, path) => fact matches RemovalFact::Entries(entries)
                && exists|i: int|
                0 <= i < entries@.len() && (#[trigger] entries@[i]).facts.is_empty
                    && may_delete_key(path, entries@[i].facts, seq![]),
            _ => false,
        },
{
    if removal.after(fact).stage is DeleteEntry {
        if let RemovalFact::Entries(entries) = fact {
            let at = entry_position(entries@, plain_name(removal.app_id->0), 0);
            lemma_entry_position(entries@, plain_name(removal.app_id->0), 0);
            assert(may_delete_key(
                removal.after(fact).stage->DeleteEntry_1,
                entries@[at].facts,
                seq![],
            ));
        }
    }
}

proof fn lemma_entry_position(entries: Seq<ListedEntry>, name: Seq<char>, from: int)
    requires
        0 <= from <= entries.len(),
    ensures
        from <= entry_position(entries, name, from) <= entries.len(),
    decreases entries.len() - from,
{
    if from < entries.len() && plain_name(entries[from].display_name@) != name {
        lemma_entry_position(entries, name, from + 1);
    }
}

} // verus!
