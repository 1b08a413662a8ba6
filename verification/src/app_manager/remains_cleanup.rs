//! Deleting what was left behind: each thing is looked at first, and deleted
//! only if that is safe.

#![verifier::loop_isolation(false)]

use vstd::prelude::*;

use super::keywords::{build_keywords, keywords_of};
use super::registry::{
    is_safe_registry_cleanup_target, key_of, may_delete_key, parse_registry_path, KeyFacts,
    RegistryKey,
};
use super::residue::{is_blacklisted_path, is_protected_path};
use super::uninstaller::CleanupResult;
use crate::list::Queue;
use crate::text;
use crate::text::CharSet;

verus! {

/// A cleanup in progress.
#[derive(Debug)]
pub struct Cleanup {
    pub keywords: Vec<String>,
    /// What is still to be dealt with.
    pub waiting: Queue<String>,
    /// Whether the first of these has been looked at and may be deleted.
    pub approved: bool,
    pub cleaned: usize,
    pub failed: Vec<String>,
    /// Whether there was nothing to clean up.
    pub was_empty: bool,
}

/// A cleanup in progress, as a value.
#[verifier::ext_equal]
pub struct CleanupView {
    pub keywords: Seq<String>,
    pub waiting: Seq<Seq<char>>,
    pub approved: bool,
    pub cleaned: int,
    pub failed: Seq<Seq<char>>,
    pub was_empty: bool,
}

impl View for Cleanup {
    type V = CleanupView;

    open spec fn view(&self) -> CleanupView {
        CleanupView {
            keywords: self.keywords@,
            waiting: text::texts(self.waiting@),
            approved: self.approved,
            cleaned: self.cleaned as int,
            failed: text::texts(self.failed@),
            was_empty: self.was_empty,
        }
    }
}

/// What is to be done next.
#[derive(Debug)]
pub enum CleanupTask {
    /// Look at a registry key.
    InspectKey(RegistryKey),
    /// Look at a file or a directory.
    InspectPath(String),
    DeleteKey(RegistryKey),
    DeletePath(String),
    Finished,
}

/// What doing it led to.
#[derive(Debug)]
pub enum CleanupFact {
    Key(KeyFacts),
    Path { present: bool },
    Deleted(bool),
}

/// The path that an item names, unless it is a registry key.
pub open spec fn path_of(item: Seq<char>) -> Seq<char> {
    text::trimmed(item, CharSet::Whitespace)
}

/// By what an item that could not be cleaned up is named.
pub open spec fn label_of(item: Seq<char>) -> Seq<char> {
    if key_of(item) is Some {
        item
    } else {
        path_of(item)
    }
}

/// Whether a fact allows to delete an item.
pub open spec fn is_approved(item: Seq<char>, fact: CleanupFact, keywords: Seq<String>) -> bool {
    match (key_of(item), fact) {
        (Some((hive, path)), CleanupFact::Key(key)) => may_delete_key(path, key, keywords),
        (None, CleanupFact::Path { present }) => present && !is_protected_path(path_of(item)),
        _ => false,
    }
}

/// Whether a fact says that there is nothing to delete.
pub open spec fn is_absent(item: Seq<char>, fact: CleanupFact) -> bool {
    key_of(item) is None && (fact matches CleanupFact::Path { present, .. } && !present)
}

/// Whether a fact is what looking at an item leads to.
pub open spec fn answers(item: Seq<char>, fact: CleanupFact) -> bool {
    if key_of(item) is Some {
        fact is Key
    } else {
        fact is Path
    }
}

impl CleanupView {
    pub open spec fn without_first(self) -> CleanupView {
        CleanupView { waiting: self.waiting.drop_first(), approved: false, ..self }
    }

    pub open spec fn with_failed(self, label: Seq<char>) -> CleanupView {
        CleanupView { failed: self.failed.push(label), ..self }
    }

    /// The cleanup after what its next task led to. A fact that does not fit
    /// the task changes nothing.
    pub open spec fn after(self, fact: CleanupFact) -> CleanupView {
        if self.waiting.len() == 0 {
            self
        } else {
            let item = self.waiting[0];
            if self.approved {
                match fact {
                    CleanupFact::Deleted(true) => CleanupView {
                        cleaned: self.cleaned + 1,
                        ..self.without_first()
                    },
                    CleanupFact::Deleted(false) => self.without_first().with_failed(
                        label_of(item),
                    ),
                    _ => self,
                }
            } else if !answers(item, fact) {
                self
            } else if is_approved(item, fact, self.keywords) {
                CleanupView { approved: true, ..self }
            } else if is_absent(item, fact) {
                self.without_first()
            } else {
                self.without_first().with_failed(label_of(item))
            }
        }
    }
}

/// Starts to clean up items: paths of files and directories, and of registry
/// keys, told by the name of their hive.
pub fn execute_cleanup(
    items: Vec<String>,
    app_name: &Option<String>,
    publisher: &Option<String>,
) -> (r: Cleanup)
    ensures
        text::texts(r.keywords@) == keywords_of(
            match *app_name {
                Some(name) => name@,
                None => ""@,
            },
            text::view_of(*publisher),
            None,
        ),
        r@ == (CleanupView {
            keywords: r.keywords@,
            waiting: text::texts(items@),
            approved: false,
            cleaned: 0,
            failed: seq![],
            was_empty: items@.len() == 0,
        }),
        r.counts_fit(),
{
    let none: Option<String> = None;
    let keywords = match app_name {
        Some(name) => build_keywords(name.as_str(), publisher, &none),
        None => build_keywords("", publisher, &none),
    };
    let was_empty = items.len() == 0;
    let failed: Vec<String> = Vec::new();
    assert(text::texts(failed@) =~= seq![]);
    Cleanup { keywords, waiting: Queue::of(items), approved: false, cleaned: 0, failed, was_empty }
}

/// Whether a task is the next one of a cleanup.
pub open spec fn is_next_task(state: CleanupView, task: CleanupTask) -> bool {
    if state.waiting.len() == 0 {
        task is Finished
    } else {
        let item = state.waiting[0];
        match key_of(item) {
            Some((hive, path)) => match task {
                CleanupTask::InspectKey(key) => !state.approved && key.hive == hive && key.path@
                    == path,
                CleanupTask::DeleteKey(key) => state.approved && key.hive == hive && key.path@
                    == path,
                _ => false,
            },
            None => match task {
                CleanupTask::InspectPath(path) => !state.approved && path@ == path_of(item),
                CleanupTask::DeletePath(path) => state.approved && path@ == path_of(item),
                _ => false,
            },
        }
    }
}

impl Cleanup {
    /// The number of things cleaned up fits its type, also after all that are
    /// waiting have been.
    pub open spec fn counts_fit(self) -> bool {
        self.cleaned + self.waiting@.len() <= usize::MAX
    }

    /// What is to be done next.
    pub fn task(&self) -> (r: CleanupTask)
        ensures
            is_next_task(self@, r),
    {
        assert(text::texts(self.waiting@).len() == self.waiting@.len());
        if self.waiting.len() == 0 {
            return CleanupTask::Finished;
        }
        assert(text::texts(self.waiting@)[0] == self.waiting@[0]@);
        let item = self.waiting.first().as_str();
        match parse_registry_path(item) {
            Some(key) => if self.approved {
                CleanupTask::DeleteKey(key)
            } else {
                CleanupTask::InspectKey(key)
            },
            None => {
                let path = text::trim(item, CharSet::Whitespace);
                if self.approved {
                    CleanupTask::DeletePath(path)
                } else {
                    CleanupTask::InspectPath(path)
                }
            },
        }
    }

    fn drop_first(&mut self) -> (r: String)
        requires
            old(self).waiting@.len() > 0,
        ensures
            final(self)@ == old(self)@.without_first(),
            final(self).waiting@.len() == old(self).waiting@.len() - 1,
            final(self).cleaned == old(self).cleaned,
            r@ == old(self)@.waiting[0],
    {
        let ghost before = self@;
        let item = self.waiting.take_first();
        self.approved = false;
        assert(text::texts(self.waiting@) =~= before.waiting.drop_first());
        assert(self@ =~= before.without_first());
        item
    }

    fn fail(&mut self, item: String)
        ensures
            final(self)@ == old(self)@.with_failed(label_of(item@)),
            final(self).waiting@ == old(self).waiting@,
            final(self).cleaned == old(self).cleaned,
    {
        let label = if parse_registry_path(item.as_str()).is_some() {
            item
        } else {
            text::trim(item.as_str(), CharSet::Whitespace)
        };
        let ghost before = self@;
        proof {
            text::lemma_texts_push(self.failed@, label);
        }
        self.failed.push(label);
        assert(self@ =~= before.with_failed(label@));
    }

    /// Takes what the next task led to.
    pub fn advance(&mut self, fact: &CleanupFact)
        requires
            old(self).counts_fit(),
        ensures
            final(self)@ == old(self)@.after(*fact),
            final(self).counts_fit(),
    {
        let ghost before = self@;
        assert(text::texts(self.waiting@).len() == self.waiting@.len());
        if self.waiting.len() == 0 {
            return;
        }
        assert(text::texts(self.waiting@)[0] == self.waiting@[0]@);
        if self.approved {
            if let CleanupFact::Deleted(deleted) = fact {
                let item = self.drop_first();
                if *deleted {
                    self.cleaned = self.cleaned + 1;
                    assert(self@ =~= before.after(*fact));
                } else {
                    self.fail(item);
                }
            }
            return;
        }
        let key = parse_registry_path(self.waiting.first().as_str());
        match (key, fact) {
            (Some(key), CleanupFact::Key(facts)) => {
                if is_safe_registry_cleanup_target(key.path.as_str(), facts, &self.keywords) {
                    self.approved = true;
                    assert(self@ =~= before.after(*fact));
                } else {
                    let item = self.drop_first();
                    self.fail(item);
                }
            },
            (None, CleanupFact::Path { present }) => {
                let path = text::trim(self.waiting.first().as_str(), CharSet::Whitespace);
                if !*present {
                    let item = self.drop_first();
                } else if is_blacklisted_path(path.as_str()) {
                    let item = self.drop_first();
                    self.fail(item);
                } else {
                    self.approved = true;
                    assert(self@ =~= before.after(*fact));
                }
            },
            _ => {},
        }
    }

    /// What the cleanup led to, so far.
    pub fn conclude(self) -> (r: CleanupResult)
        ensures
            r.success == (self@.failed.len() == 0),
            r.cleaned_count == self@.cleaned,
            text::texts(r.failed_items@) == self@.failed,
            r.message@ == message_of(self@),
    {
        assert(text::texts(self.failed@).len() == self.failed@.len());
        let success = self.failed.len() == 0;
        let message = if self.was_empty && success && self.cleaned == 0 {
            "没有需要清理的项目".to_owned()
        } else if success {
            let mut m = "清理完成，共删除 ".to_owned();
            let cleaned = text::decimal_text(self.cleaned as u64);
            m.push_str(cleaned.as_str());
            m.push_str(" 项");
            m
        } else {
            let failed = text::decimal_text(self.failed.len() as u64);
            if self.cleaned == 0 {
                let mut m = "所有 ".to_owned();
                m.push_str(failed.as_str());
                m.push_str(" 项清理均失败（可能需管理员权限），请以管理员身份运行后重试");
                m
            } else {
                let cleaned = text::decimal_text(self.cleaned as u64);
                let mut m = "清理部分完成：成功 ".to_owned();
                m.push_str(cleaned.as_str());
                m.push_str(" 项，失败 ");
                m.push_str(failed.as_str());
                m.push_str(" 项（失败项可能需管理员权限）");
                m
            }
        };
        CleanupResult {
            success,
            message,
            cleaned_count: self.cleaned,
            failed_items: self.failed,
        }
    }
}

/// What is said of a cleanup.
pub open spec fn message_of(state: CleanupView) -> Seq<char> {
    let cleaned = text::decimal(state.cleaned as nat);
    let failed = text::decimal(state.failed.len());
    if state.failed.len() == 0 {
        if state.was_empty && state.cleaned == 0 {
            "没有需要清理的项目"@
        } else {
            "清理完成，共删除 "@ + cleaned + " 项"@
        }
    } else if state.cleaned == 0 {
        "所有 "@ + failed
            + " 项清理均失败（可能需管理员权限），请以管理员身份运行后重试"@
    } else {
        "清理部分完成：成功 "@ + cleaned + " 项，失败 "@ + failed
            + " 项（失败项可能需管理员权限）"@
    }
}

/// What the operation log says of a cleanup's end.
pub fn cleanup_status(result: &CleanupResult) -> (r: &'static str)
    ensures
        r@ == if result.success {
            "success"@
        } else {
            "partial_failure"@
        },
{
    if result.success {
        "success"
    } else {
        "partial_failure"
    }
}

/// Nothing is deleted before it was looked at: a key only where it may be
/// deleted, a file or a directory only where it exists and is not the system's.
pub proof fn law_only_approved_items_are_deleted(
    state: CleanupView,
    fact: CleanupFact,
    task: CleanupTask,
)
    requires
        !state.approved,
        is_next_task(state.after(fact), task),
        task is DeleteKey || task is DeletePath,
    ensures
        state.waiting.len() > 0,
        match task {
            CleanupTask::DeleteKey(key) => fact matches CleanupFact::Key(facts) && may_delete_key(
                key.path@,
                facts,
                state.keywords,
            ),
            CleanupTask::DeletePath(path) => fact matches CleanupFact::Path { present } && present
                && !is_protected_path(path@),
            _ => false,
        },
{
}

/// Each step leaves the items as they are or is done with the first one; then
/// it was cleaned up, or has failed, or was not there.
pub proof fn law_every_item_is_dealt_with_once(state: CleanupView, fact: CleanupFact)
    ensures
        ({
            let next = state.after(fact);
            ||| next.waiting == state.waiting && next.cleaned == state.cleaned && next.failed
                == state.failed
            ||| {
                &&& state.waiting.len() > 0
                &&& next.waiting == state.waiting.drop_first()
                &&& !next.approved
                &&& ({
                    ||| next.cleaned == state.cleaned + 1 && next.failed == state.failed
                        && state.approved && fact == CleanupFact::Deleted(true)
                    ||| next.cleaned == state.cleaned && next.failed == state.failed.push(
                        label_of(state.waiting[0]),
                    )
                    ||| next.cleaned == state.cleaned && next.failed == state.failed && is_absent(
                        state.waiting[0],
                        fact,
                    )
                })
            }
        }),
{
}

/// How far the deletion of a path has come: a plain attempt, one without
/// read-only attributes, and one after taking ownership.
#[derive(Debug)]
pub enum Deletion {
    Plain,
    WithoutReadOnly,
    /// The error is that of the attempt before.
    AfterTakeover(String),
    Deleted,
    Failed(String),
}

/// How the deletion goes on after an attempt. `error` says why the attempt
/// failed; it is absent where it succeeded.
pub fn force_delete_path(deletion: Deletion, error: Option<String>) -> (r: Deletion)
    ensures
        match (deletion, error) {
            (Deletion::Deleted, _) => r is Deleted,
            (Deletion::Failed(reason), _) => r == Deletion::Failed(reason),
            (_, None) => r is Deleted,
            (Deletion::Plain, Some(_)) => r is WithoutReadOnly,
            (Deletion::WithoutReadOnly, Some(error)) => r == Deletion::AfterTakeover(error),
            (Deletion::AfterTakeover(first), Some(error)) => r matches Deletion::Failed(reason)
                && reason@ == "删除失败："@ + first@ + "；权限回退后仍失败："@ + error@,
        },
{
    match deletion {
        Deletion::Deleted => Deletion::Deleted,
        Deletion::Failed(reason) => Deletion::Failed(reason),
        Deletion::Plain => match error {
            None => Deletion::Deleted,
            Some(_) => Deletion::WithoutReadOnly,
        },
        Deletion::WithoutReadOnly => match error {
            None => Deletion::Deleted,
            Some(error) => Deletion::AfterTakeover(error),
        },
        Deletion::AfterTakeover(first) => match error {
            None => Deletion::Deleted,
            Some(error) => {
                let mut reason = "删除失败：".to_owned();
                reason.push_str(first.as_str());
                reason.push_str("；权限回退后仍失败：");
                reason.push_str(error.as_str());
                Deletion::Failed(reason)
            },
        },
    }
}

/// A call of a tool.
#[derive(Debug)]
pub struct ToolCall {
    pub program: &'static str,
    pub args: Vec<String>,
}

/// The calls that take ownership of a path and give the administrators full
/// control, of a directory with all that is in it.
pub fn takeover_calls(path: &str, is_dir: bool) -> (r: (ToolCall, ToolCall))
    ensures
        r.0.program@ == "takeown"@,
        text::texts(r.0.args@) == if is_dir {
            seq!["/F"@, path@, "/R"@, "/D"@, "Y"@]
        } else {
            seq!["/F"@, path@]
        },
        r.1.program@ == "icacls"@,
        text::texts(r.1.args@) == if is_dir {
            seq![path@, "/grant"@, "*S-1-5-32-544:F"@, "/T"@, "/C"@, "/Q"@]
        } else {
            seq![path@, "/grant"@, "*S-1-5-32-544:F"@, "/C"@, "/Q"@]
        },
{
    if is_dir {
        let own = vec![
            "/F".to_owned(),
            path.to_owned(),
            "/R".to_owned(),
            "/D".to_owned(),
            "Y".to_owned(),
        ];
        let grant = vec![
            path.to_owned(),
            "/grant".to_owned(),
            "*S-1-5-32-544:F".to_owned(),
            "/T".to_owned(),
            "/C".to_owned(),
            "/Q".to_owned(),
        ];
        assert(text::texts(own@) =~= seq!["/F"@, path@, "/R"@, "/D"@, "Y"@]);
        assert(text::texts(grant@) =~= seq![
            path@,
            "/grant"@,
            "*S-1-5-32-544:F"@,
            "/T"@,
            "/C"@,
            "/Q"@,
        ]);
        (ToolCall { program: "takeown", args: own }, ToolCall { program: "icacls", args: grant })
    } else {
        let own = vec!["/F".to_owned(), path.to_owned()];
        let grant = vec![
            path.to_owned(),
            "/grant".to_owned(),
            "*S-1-5-32-544:F".to_owned(),
            "/C".to_owned(),
            "/Q".to_owned(),
        ];
        assert(text::texts(own@) =~= seq!["/F"@, path@]);
        assert(text::texts(grant@) =~= seq![
            path@,
            "/grant"@,
            "*S-1-5-32-544:F"@,
            "/C"@,
            "/Q"@,
        ]);
        (ToolCall { program: "takeown", args: own }, ToolCall { program: "icacls", args: grant })
    }
}

} // verus!
