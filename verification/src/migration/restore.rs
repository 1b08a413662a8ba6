//! Moving a directory back to where it came from.
//!
//! [`Restore`] is the procedure as a state machine, like
//! [`Migration`](super::Migration).

use vstd::prelude::*;

use crate::path;
use crate::text;

use super::links::{rollback_message, rollback_restore_link};
use super::ProgressNote;

verus! {

/// What is to be done next.
#[derive(Debug, Clone, Copy, PartialEq, Eq, Structural)]
pub enum RestoreStage {
    /// List and measure what is to be copied back.
    BuildPlan,
    /// See whether the original's parent exists and has room.
    CheckSpace,
    /// See what stands at the original path.
    ProbeOriginal,
    /// Remove the link at the original path.
    RemoveLink,
    /// Create the original directory.
    CreateOriginal,
    /// Copy the target into the original directory.
    CopyBack,
    /// Measure the original directory.
    MeasureOriginal,
    /// See what stands at the original path after a failure.
    ProbePartial,
    /// Delete the half-made copy at the original path.
    RemovePartial,
    /// See whether anything still stands at the original path.
    ProbeUnlinked,
    /// Make the link to the target again.
    Relink,
    /// Delete the target, if it is still there.
    RemoveTarget,
    /// Delete the backups that earlier migrations left beside the original.
    RemoveLeftovers,
    /// Nothing: the result is there.
    Finished,
}

/// How the step that a stage asks for went.
#[derive(Debug)]
pub enum RestoreEvent {
    PlanBuilt { total_size: u64 },
    /// The free space on the disk of the original; the texts give it and the
    /// needed space as they are shown.
    SpaceChecked { available: u64, available_text: String, required_text: String },
    OriginalProbed { is_junction: bool, exists: bool },
    /// The texts give both sizes for the user to read.
    OriginalMeasured { size: u64, expected_text: String, actual_text: String },
    Done,
    Failed { reason: String },
}

/// The outcome of a restore.
#[derive(Debug)]
pub struct RestoreDirectoryResult {
    pub restored_size: u64,
    /// Why the target could not be deleted.
    pub cleanup_warning: Option<String>,
}

/// A restore under way.
#[derive(Debug)]
pub struct Restore {
    pub original: String,
    pub target: String,
    pub stage: RestoreStage,
    pub total_size: u64,
    pub restored_size: u64,
    /// What the restore failed of, while it is being rolled back.
    pub reason: String,
    /// Why the half-made copy could not be deleted.
    pub partial_failure: Option<String>,
    pub cleanup_warning: Option<String>,
    pub result: Option<Result<RestoreDirectoryResult, String>>,
}

/// What the outcome of a restore says.
pub struct RestoredView {
    pub restored_size: u64,
    pub cleanup_warning: Option<Seq<char>>,
}

/// What the state of a restore holds.
pub struct RestoreView {
    pub original: Seq<char>,
    pub target: Seq<char>,
    pub stage: RestoreStage,
    pub total_size: u64,
    pub restored_size: u64,
    pub reason: Seq<char>,
    pub partial_failure: Option<Seq<char>>,
    pub cleanup_warning: Option<Seq<char>>,
    pub result: Option<Result<RestoredView, Seq<char>>>,
}

impl View for Restore {
    type V = RestoreView;

    open spec fn view(&self) -> RestoreView {
        RestoreView {
            original: self.original@,
            target: self.target@,
            stage: self.stage,
            total_size: self.total_size,
            restored_size: self.restored_size,
            reason: self.reason@,
            partial_failure: text::view_of(self.partial_failure),
            cleanup_warning: text::view_of(self.cleanup_warning),
            result: match self.result {
                Some(Ok(done)) => Some(
                    Ok(
                        RestoredView {
                            restored_size: done.restored_size,
                            cleanup_warning: text::view_of(done.cleanup_warning),
                        },
                    ),
                ),
                Some(Err(reason)) => Some(Err(reason@)),
                None => None,
            },
        }
    }
}

/// What an event says.
pub enum RestoreEventView {
    PlanBuilt { total_size: u64 },
    SpaceChecked { available: u64, available_text: Seq<char>, required_text: Seq<char> },
    OriginalProbed { is_junction: bool, exists: bool },
    OriginalMeasured {
        size: u64,
        expected_text: Seq<char>,
        actual_text: Seq<char>,
    },
    Done,
    Failed { reason: Seq<char> },
}

impl View for RestoreEvent {
    type V = RestoreEventView;

    open spec fn view(&self) -> RestoreEventView {
        match *self {
            RestoreEvent::PlanBuilt { total_size } => RestoreEventView::PlanBuilt { total_size },
            RestoreEvent::SpaceChecked { available, available_text, required_text } =>
                RestoreEventView::SpaceChecked {
                available,
                available_text: available_text@,
                required_text: required_text@,
            },
            RestoreEvent::OriginalProbed { is_junction, exists } =>
                RestoreEventView::OriginalProbed { is_junction, exists },
            RestoreEvent::OriginalMeasured { size, expected_text, actual_text } =>
                RestoreEventView::OriginalMeasured {
                size,
                expected_text: expected_text@,
                actual_text: actual_text@,
            },
            RestoreEvent::Done => RestoreEventView::Done,
            RestoreEvent::Failed { reason } => RestoreEventView::Failed { reason: reason@ },
        }
    }
}

/// How far a restored size may be off: one percent and one MiB.
pub open spec fn restore_tolerance(total: u64) -> int {
    total / 100 + 1024 * 1024
}

/// Whether a restored size differs from the expected one by no more than the
/// tolerance.
pub open spec fn restored_size_accepted(total: u64, size: u64) -> bool {
    -restore_tolerance(total) <= size - total <= restore_tolerance(total)
}

pub open spec fn broken_off(r: RestoreView, reason: Seq<char>) -> RestoreView {
    RestoreView { stage: RestoreStage::Finished, result: Some(Err(reason)), ..r }
}

pub open spec fn at(r: RestoreView, stage: RestoreStage) -> RestoreView {
    RestoreView { stage, ..r }
}

pub open spec fn finished(r: RestoreView) -> RestoreView {
    RestoreView {
        stage: RestoreStage::Finished,
        result: Some(
            Ok(
                RestoredView {
                    restored_size: r.restored_size,
                    cleanup_warning: r.cleanup_warning,
                },
            ),
        ),
        ..r
    }
}

/// A restore that failed and was rolled back, given why the link could not be
/// made again.
pub open spec fn rolled_back(r: RestoreView, link: Option<Seq<char>>) -> RestoreView {
    broken_off(r, r.reason + rollback_message(r.target, r.partial_failure, link))
}

/// Where an event takes a restore. An event that does not answer the stage's
/// question changes nothing.
pub open spec fn next(r: RestoreView, e: RestoreEventView) -> RestoreView {
    match r.stage {
        RestoreStage::BuildPlan => match e {
            RestoreEventView::PlanBuilt { total_size } => RestoreView {
                total_size,
                ..at(r, RestoreStage::CheckSpace)
            },
            RestoreEventView::Failed { reason } => broken_off(r, reason),
            _ => r,
        },
        RestoreStage::CheckSpace => match e {
            RestoreEventView::SpaceChecked { available, available_text, required_text } =>
                if path::parent(r.original) is None {
                broken_off(r, "无法获取原路径的父目录"@)
            } else if available < r.total_size {
                broken_off(
                    r,
                    "原磁盘空间不足。需要: "@ + required_text + "，可用: "@ + available_text,
                )
            } else {
                at(r, RestoreStage::ProbeOriginal)
            },
            _ => r,
        },
        RestoreStage::ProbeOriginal => match e {
            RestoreEventView::OriginalProbed { is_junction, exists } => if is_junction {
                at(r, RestoreStage::RemoveLink)
            } else if exists {
                broken_off(r, "原路径 "@ + r.original + " 已存在且不是目录链接，拒绝恢复以保护数据。"@)
            } else {
                at(r, RestoreStage::CreateOriginal)
            },
            _ => r,
        },
        RestoreStage::RemoveLink => match e {
            RestoreEventView::Done => at(r, RestoreStage::CreateOriginal),
            RestoreEventView::Failed { reason } => broken_off(r, "删除目录链接失败: "@ + reason),
            _ => r,
        },
        RestoreStage::CreateOriginal => match e {
            RestoreEventView::Done => at(r, RestoreStage::CopyBack),
            RestoreEventView::Failed { reason } => broken_off(
                r,
                "创建原路径目录失败 "@ + r.original + ": "@ + reason,
            ),
            _ => r,
        },
        RestoreStage::CopyBack => match e {
            RestoreEventView::Done => at(r, RestoreStage::MeasureOriginal),
            RestoreEventView::Failed { reason } => RestoreView {
                reason: "恢复复制失败："@ + reason + "\n"@,
                ..at(r, RestoreStage::ProbePartial)
            },
            _ => r,
        },
        RestoreStage::MeasureOriginal => match e {
            RestoreEventView::OriginalMeasured { size, expected_text, actual_text } =>
                if restored_size_accepted(r.total_size, size) {
                RestoreView { restored_size: size, ..at(r, RestoreStage::RemoveTarget) }
            } else {
                RestoreView {
                    reason: "恢复完整性校验失败：预期 "@ + expected_text + "，实际 "@ + actual_text
                        + "。\n"@,
                    ..at(r, RestoreStage::ProbePartial)
                }
            },
            _ => r,
        },
        RestoreStage::ProbePartial => match e {
            RestoreEventView::OriginalProbed { is_junction, exists } => if exists && !is_junction {
                at(r, RestoreStage::RemovePartial)
            } else {
                at(r, RestoreStage::ProbeUnlinked)
            },
            _ => r,
        },
        RestoreStage::RemovePartial => match e {
            RestoreEventView::Done => at(r, RestoreStage::ProbeUnlinked),
            RestoreEventView::Failed { reason } => RestoreView {
                partial_failure: Some(reason),
                ..at(r, RestoreStage::ProbeUnlinked)
            },
            _ => r,
        },
        RestoreStage::ProbeUnlinked => match e {
            RestoreEventView::OriginalProbed { is_junction, exists } => if exists {
                rolled_back(r, None)
            } else {
                at(r, RestoreStage::Relink)
            },
            _ => r,
        },
        RestoreStage::Relink => match e {
            RestoreEventView::Done => rolled_back(r, None),
            RestoreEventView::Failed { reason } => rolled_back(r, Some(reason)),
            _ => r,
        },
        RestoreStage::RemoveTarget => match e {
            RestoreEventView::Done => at(r, RestoreStage::RemoveLeftovers),
            RestoreEventView::Failed { reason } => RestoreView {
                cleanup_warning: Some("恢复已完成，但目标副本清理失败："@ + reason),
                ..at(r, RestoreStage::RemoveLeftovers)
            },
            _ => r,
        },
        RestoreStage::RemoveLeftovers => match e {
            RestoreEventView::Done => finished(r),
            _ => r,
        },
        RestoreStage::Finished => r,
    }
}

/// A restore at its beginning.
pub open spec fn started(original: Seq<char>, target: Seq<char>) -> RestoreView {
    RestoreView {
        original,
        target,
        stage: RestoreStage::BuildPlan,
        total_size: 0,
        restored_size: 0,
        reason: seq![],
        partial_failure: None,
        cleanup_warning: None,
        result: None,
    }
}

/// Begins to move a directory back.
pub fn restore_directory_with_progress(original: String, target: String) -> (r: Restore)
    ensures
        r@ == started(original@, target@),
{
    Restore {
        original,
        target,
        stage: RestoreStage::BuildPlan,
        total_size: 0,
        restored_size: 0,
        reason: String::new(),
        partial_failure: None,
        cleanup_warning: None,
        result: None,
    }
}

impl Restore {
    fn broken_off(self, reason: String) -> (r: Restore)
        ensures
            r@ == broken_off(self@, reason@),
    {
        Restore { stage: RestoreStage::Finished, result: Some(Err(reason)), ..self }
    }

    fn at(self, stage: RestoreStage) -> (r: Restore)
        ensures
            r@ == at(self@, stage),
    {
        Restore { stage, ..self }
    }

    fn measured(
        self,
        size: u64,
        expected_text: &str,
        actual_text: &str,
    ) -> (r: Restore)
        requires
            self.stage == RestoreStage::MeasureOriginal,
        ensures
            r@ == next(
                self@,
                RestoreEventView::OriginalMeasured {
                    size,
                    expected_text: expected_text@,
                    actual_text: actual_text@,
                },
            ),
    {
        let total: u64 = self.total_size;
        let difference: u64 = if size >= total { size - total } else { total - size };
        if difference <= total / 100 || difference - total / 100 <= 1024 * 1024 {
            return Restore { restored_size: size, stage: RestoreStage::RemoveTarget, ..self };
        }
        let mut reason = "恢复完整性校验失败：预期 ".to_owned();
        reason.push_str(expected_text);
        reason.push_str("，实际 ");
        reason.push_str(actual_text);
        reason.push_str("。\n");
        Restore { reason, stage: RestoreStage::ProbePartial, ..self }
    }

    fn rolled_back(self, link: Option<String>) -> (r: Restore)
        ensures
            r@ == rolled_back(self@, text::view_of(link)),
    {
        let partial: Option<String> = match &self.partial_failure {
            Some(reason) => Some(reason.clone()),
            None => None,
        };
        let mut message = self.reason.clone();
        let rollback = rollback_restore_link(self.target.as_str(), partial, link);
        message.push_str(rollback.as_str());
        self.broken_off(message)
    }

    fn finished(self) -> (r: Restore)
        ensures
            r@ == finished(self@),
    {
        let cleanup_warning: Option<String> = match &self.cleanup_warning {
            Some(warning) => Some(warning.clone()),
            None => None,
        };
        let done = RestoreDirectoryResult { restored_size: self.restored_size, cleanup_warning };
        Restore { stage: RestoreStage::Finished, result: Some(Ok(done)), ..self }
    }

    /// Takes in how the step went that the stage asks for, and says what is to
    /// be done next.
    pub fn advance(self, event: RestoreEvent) -> (r: Restore)
        ensures
            r@ == next(self@, event@),
    {
        match self.stage {
            RestoreStage::BuildPlan => match event {
                RestoreEvent::PlanBuilt { total_size } => Restore {
                    total_size,
                    stage: RestoreStage::CheckSpace,
                    ..self
                },
                RestoreEvent::Failed { reason } => self.broken_off(reason),
                _ => self,
            },
            RestoreStage::CheckSpace => match event {
                RestoreEvent::SpaceChecked { available, available_text, required_text } => {
                    if path::parent_of(self.original.as_str()).is_none() {
                        return self.broken_off("无法获取原路径的父目录".to_owned());
                    }
                    if available < self.total_size {
                        let mut message = "原磁盘空间不足。需要: ".to_owned();
                        message.push_str(required_text.as_str());
                        message.push_str("，可用: ");
                        message.push_str(available_text.as_str());
                        return self.broken_off(message);
                    }
                    self.at(RestoreStage::ProbeOriginal)
                },
                _ => self,
            },
            RestoreStage::ProbeOriginal => match event {
                RestoreEvent::OriginalProbed { is_junction, exists } => {
                    if is_junction {
                        self.at(RestoreStage::RemoveLink)
                    } else if exists {
                        let mut message = "原路径 ".to_owned();
                        message.push_str(self.original.as_str());
                        message.push_str(" 已存在且不是目录链接，拒绝恢复以保护数据。");
                        self.broken_off(message)
                    } else {
                        self.at(RestoreStage::CreateOriginal)
                    }
                },
                _ => self,
            },
            RestoreStage::RemoveLink => match event {
                RestoreEvent::Done => self.at(RestoreStage::CreateOriginal),
                RestoreEvent::Failed { reason } => {
                    let mut message = "删除目录链接失败: ".to_owned();
                    message.push_str(reason.as_str());
                    self.broken_off(message)
                },
                _ => self,
            },
            RestoreStage::CreateOriginal => match event {
                RestoreEvent::Done => self.at(RestoreStage::CopyBack),
                RestoreEvent::Failed { reason } => {
                    let mut message = "创建原路径目录失败 ".to_owned();
                    message.push_str(self.original.as_str());
                    message.push_str(": ");
                    message.push_str(reason.as_str());
                    self.broken_off(message)
                },
                _ => self,
            },
            RestoreStage::CopyBack => match event {
                RestoreEvent::Done => self.at(RestoreStage::MeasureOriginal),
                RestoreEvent::Failed { reason } => {
                    let mut message = "恢复复制失败：".to_owned();
                    message.push_str(reason.as_str());
                    message.push_str("\n");
                    Restore { reason: message, stage: RestoreStage::ProbePartial, ..self }
                },
                _ => self,
            },
            RestoreStage::MeasureOriginal => match event {
                RestoreEvent::OriginalMeasured { size, expected_text, actual_text } =>
                    self.measured(size, expected_text.as_str(), actual_text.as_str()),
                _ => self,
            },
            RestoreStage::ProbePartial => match event {
                RestoreEvent::OriginalProbed { is_junction, exists } => {
                    if exists && !is_junction {
                        self.at(RestoreStage::RemovePartial)
                    } else {
                        self.at(RestoreStage::ProbeUnlinked)
                    }
                },
                _ => self,
            },
            RestoreStage::RemovePartial => match event {
                RestoreEvent::Done => self.at(RestoreStage::ProbeUnlinked),
                RestoreEvent::Failed { reason } => Restore {
                    partial_failure: Some(reason),
                    stage: RestoreStage::ProbeUnlinked,
                    ..self
                },
                _ => self,
            },
            RestoreStage::ProbeUnlinked => match event {
                RestoreEvent::OriginalProbed { is_junction, exists } => {
                    if exists {
                        self.rolled_back(None)
                    } else {
                        self.at(RestoreStage::Relink)
                    }
                },
                _ => self,
            },
            RestoreStage::Relink => match event {
                RestoreEvent::Done => self.rolled_back(None),
                RestoreEvent::Failed { reason } => self.rolled_back(Some(reason)),
                _ => self,
            },
            RestoreStage::RemoveTarget => match event {
                RestoreEvent::Done => self.at(RestoreStage::RemoveLeftovers),
                RestoreEvent::Failed { reason } => {
                    let mut message = "恢复已完成，但目标副本清理失败：".to_owned();
                    message.push_str(reason.as_str());
                    Restore {
                        cleanup_warning: Some(message),
                        stage: RestoreStage::RemoveLeftovers,
                        ..self
                    }
                },
                _ => self,
            },
            RestoreStage::RemoveLeftovers => match event {
                RestoreEvent::Done => self.finished(),
                _ => self,
            },
            RestoreStage::Finished => self,
        }
    }
}

impl Restore {
    /// What the user is shown when the stage is reached, if anything.
    pub fn progress(&self) -> (r: Option<ProgressNote>)
        ensures
            r == match self.stage {
                RestoreStage::ProbeOriginal => shown(
                    9,
                    "linking",
                    "正在移除原目录链接...",
                    0,
                    self.total_size,
                ),
                RestoreStage::MeasureOriginal => shown(
                    90,
                    "verifying",
                    "正在校验恢复完整性...",
                    self.total_size,
                    self.total_size,
                ),
                RestoreStage::RemoveTarget => shown(
                    96,
                    "linking",
                    "正在清理目标副本...",
                    self.restored_size,
                    self.total_size,
                ),
                RestoreStage::Finished => if self.result matches Some(Ok(_)) {
                    shown(100, "done", "恢复完成", self.restored_size, self.total_size)
                } else {
                    None
                },
                _ => None,
            },
    {
        let (percent, step, message, copied_size): (u64, &'static str, &'static str, u64) =
            match self.stage {
            RestoreStage::ProbeOriginal => (9, "linking", "正在移除原目录链接...", 0),
            RestoreStage::MeasureOriginal => {
                (90, "verifying", "正在校验恢复完整性...", self.total_size)
            },
            RestoreStage::RemoveTarget => (
                96,
                "linking",
                "正在清理目标副本...",
                self.restored_size,
            ),
            RestoreStage::Finished => match &self.result {
                Some(Ok(_)) => (100, "done", "恢复完成", self.restored_size),
                _ => {
                    return None;
                },
            },
            _ => {
                return None;
            },
        };
        Some(ProgressNote { percent, step, message, copied_size, total_size: self.total_size })
    }
}

pub open spec fn shown(
    percent: u64,
    step: &'static str,
    message: &'static str,
    copied_size: u64,
    total_size: u64,
) -> Option<ProgressNote> {
    Some(ProgressNote { percent, step, message, copied_size, total_size })
}

/// Where whole copies of the data are.
pub struct RestoreWhereabouts {
    pub target: bool,
    /// An accepted copy stands at the original path.
    pub original: bool,
}

/// What a step does to the data: a copy counts once its size was accepted, and
/// a target whose deletion was begun no longer counts.
pub open spec fn moved(
    w: RestoreWhereabouts,
    r: RestoreView,
    e: RestoreEventView,
) -> RestoreWhereabouts {
    match r.stage {
        RestoreStage::MeasureOriginal => match e {
            RestoreEventView::OriginalMeasured { size, expected_text, actual_text } =>
                RestoreWhereabouts {
                original: restored_size_accepted(r.total_size, size),
                ..w
            },
            _ => w,
        },
        RestoreStage::RemovePartial => if e is Done || e is Failed {
            RestoreWhereabouts { original: false, ..w }
        } else {
            w
        },
        RestoreStage::RemoveTarget => if e is Done || e is Failed {
            RestoreWhereabouts { target: false, ..w }
        } else {
            w
        },
        _ => w,
    }
}

/// A restore and the whereabouts of its data after a number of events.
pub open spec fn run(
    r: RestoreView,
    w: RestoreWhereabouts,
    events: Seq<RestoreEventView>,
) -> (RestoreView, RestoreWhereabouts)
    decreases events.len(),
{
    if events.len() == 0 {
        (r, w)
    } else {
        let (s, v) = run(r, w, events.drop_last());
        (next(s, events.last()), moved(v, s, events.last()))
    }
}

/// Before a restore the data stands at the target, and there only.
pub open spec fn unrestored() -> RestoreWhereabouts {
    RestoreWhereabouts { target: true, original: false }
}

spec fn stage_relies_on(r: RestoreView, w: RestoreWhereabouts) -> bool {
    match r.stage {
        RestoreStage::RemoveTarget => w.original && w.target,
        RestoreStage::RemoveLeftovers => w.original,
        RestoreStage::Finished => match r.result {
            Some(Ok(_)) => w.original,
            Some(Err(_)) => w.target,
            None => false,
        },
        _ => w.target && r.result is None,
    }
}

/// However the steps of a restore go, at every moment a whole copy of the data
/// stands at the target or at the original path; the target is deleted only
/// once it stands at both. Success means that it is at the original path, an
/// error that it is still at the target.
pub proof fn law_data_survives_restore(
    original: Seq<char>,
    target: Seq<char>,
    events: Seq<RestoreEventView>,
)
    ensures
        ({
            let (r, w) = run(started(original, target), unrestored(), events);
            &&& w.target || w.original
            &&& r.stage == RestoreStage::RemoveTarget ==> w.original
            &&& r.result matches Some(Ok(_)) ==> w.original
            &&& r.result matches Some(Err(_)) ==> w.target
        }),
{
    lemma_run_keeps_relying(original, target, events);
}

/// Only a directory is deleted as a half-made copy, never a link, through which
/// the data at the target would be lost; and a link is made only where nothing
/// stands.
pub proof fn law_links_are_kept_on_rolling_back(r: RestoreView, e: RestoreEventView)
    ensures
        r.stage != RestoreStage::RemovePartial && next(r, e).stage == RestoreStage::RemovePartial
            ==> e == (RestoreEventView::OriginalProbed { is_junction: false, exists: true }),
        r.stage != RestoreStage::Relink && next(r, e).stage == RestoreStage::Relink ==> (
        e matches RestoreEventView::OriginalProbed { is_junction, exists } && !exists),
{
}

proof fn lemma_run_keeps_relying(
    original: Seq<char>,
    target: Seq<char>,
    events: Seq<RestoreEventView>,
)
    ensures
        ({
            let (r, w) = run(started(original, target), unrestored(), events);
            stage_relies_on(r, w) && (r.stage != RestoreStage::Finished ==> r.result is None)
        }),
    decreases events.len(),
{
    if events.len() > 0 {
        lemma_run_keeps_relying(original, target, events.drop_last());
    }
}

} // verus!
