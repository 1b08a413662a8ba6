//! What a migration promises: which programs stop it, which sizes it accepts,
//! how it goes when every step goes well, and what is told of a step that did
//! not.

use vstd::prelude::*;

use super::danger_rules;
use super::danger_rules::DangerLevel;
use super::{
    next, running_in, started, target_of, EventView, MigrationRequest, MigrationStage,
    MigrationView, OutcomeView, ProcessView,
};
use crate::path;
use crate::text;

verus! {

/// Whether a text stands somewhere in another.
pub open spec fn tells(message: Seq<char>, part: Seq<char>) -> bool {
    exists|before: Seq<char>, after: Seq<char>| message == #[trigger] (before + part + after)
}

pub proof fn lemma_tells(before: Seq<char>, part: Seq<char>, after: Seq<char>)
    ensures
        tells(before + part + after, part),
{
}

/// Whether a migration has ended with a failure that names no new path.
pub open spec fn is_refused(m: MigrationView) -> bool {
    &&& m.stage == MigrationStage::Finished
    &&& m.result matches Some(Ok(outcome)) && !outcome.success && outcome.new_path is None
}

/// Whether the target is about to be deleted and a failure reported.
pub open spec fn is_being_undone(m: MigrationView) -> bool {
    &&& m.stage == MigrationStage::CleanTarget
    &&& m.pending matches Some(outcome) && !outcome.success
}

/// Whether the executable of a process lies below a path, as texts in lower
/// case.
pub open spec fn runs_below(process: ProcessView, source: Seq<char>) -> bool {
    process.exe matches Some(exe) && exists|rest: Seq<char>|
        text::lowercase(exe) == #[trigger] (text::lowercase(source) + rest)
}

pub proof fn lemma_prefix_and_rest(s: Seq<char>, p: Seq<char>)
    ensures
        text::has_prefix(s, p) <==> exists|rest: Seq<char>| s == #[trigger] (p + rest),
{
    if text::has_prefix(s, p) {
        assert(s =~= p + s.skip(p.len() as int));
    }
    if exists|rest: Seq<char>| s == #[trigger] (p + rest) {
        let rest = choose|rest: Seq<char>| s == #[trigger] (p + rest);
        assert(s.take(p.len() as int) =~= p);
        assert(s.subrange(0, p.len() as int) =~= p);
    }
}

/// Every program whose executable lies below the source, however deep, is
/// named; and no other is.
pub proof fn law_programs_below_the_source_are_named(
    processes: Seq<ProcessView>,
    source: Seq<char>,
)
    ensures
        forall|i: int|
            0 <= i < processes.len() && runs_below(#[trigger] processes[i], source) ==> running_in(
                processes,
                source,
            ).contains(processes[i].name),
        forall|name: Seq<char>| #[trigger]
            running_in(processes, source).contains(name) ==> exists|i: int|
                0 <= i < processes.len() && runs_below(#[trigger] processes[i], source)
                    && processes[i].name == name,
    decreases processes.len(),
{
    if processes.len() > 0 {
        let front = processes.drop_last();
        law_programs_below_the_source_are_named(front, source);
        let before = running_in(front, source);
        let all = running_in(processes, source);
        let last = processes.last();
        if last.exe is Some {
            lemma_prefix_and_rest(text::lowercase(last.exe->0), text::lowercase(source));
        }
        assert forall|i: int|
            0 <= i < processes.len() && runs_below(#[trigger] processes[i], source) implies all.contains(
            processes[i].name,
        ) by {
            if i < front.len() {
                assert(front[i] == processes[i]);
                let k = choose|k: int| 0 <= k < before.len() && before[k] == processes[i].name;
                assert(all[k] == before[k]);
            } else {
                assert(all[all.len() - 1] == last.name);
            }
        }
        assert forall|name: Seq<char>| #[trigger] all.contains(name) implies exists|i: int|
            0 <= i < processes.len() && runs_below(#[trigger] processes[i], source)
                && processes[i].name == name by {
            let k = choose|k: int| 0 <= k < all.len() && all[k] == name;
            if k < before.len() {
                assert(before[k] == name);
                assert(before.contains(name));
                let i = choose|i: int|
                    0 <= i < front.len() && runs_below(#[trigger] front[i], source)
                        && front[i].name == name;
                assert(processes[i] == front[i]);
            } else {
                assert(processes[processes.len() - 1] == last);
            }
        }
    }
}

/// Programs are named in the order in which they are listed: the names of two
/// lists, one behind the other, stand one behind the other.
pub proof fn law_programs_are_named_in_order(
    a: Seq<ProcessView>,
    b: Seq<ProcessView>,
    source: Seq<char>,
)
    ensures
        running_in(a + b, source) == running_in(a, source) + running_in(b, source),
    decreases b.len(),
{
    if b.len() == 0 {
        assert(a + b =~= a);
        assert(running_in(a, source) + running_in(b, source) =~= running_in(a, source));
    } else {
        law_programs_are_named_in_order(a, b.drop_last(), source);
        assert((a + b).drop_last() =~= a + b.drop_last());
        assert((a + b).last() == b.last());
        assert(running_in(a + b, source) =~= running_in(a, source) + running_in(b, source));
    }
}

/// While a program runs from below the source, the migration is refused and
/// nothing is touched; while none does, it goes on to the locks.
pub proof fn law_running_program_stops_the_migration(
    m: MigrationView,
    processes: Seq<ProcessView>,
)
    requires
        m.stage == MigrationStage::ListProcesses,
    ensures
        ({
            let n = next(m, EventView::ProcessesListed { processes });
            &&& (exists|i: int|
                0 <= i < processes.len() && runs_below(#[trigger] processes[i], m.source))
                ==> is_refused(n)
            &&& (forall|i: int|
                0 <= i < processes.len() ==> !runs_below(#[trigger] processes[i], m.source))
                ==> n.stage == MigrationStage::ProbeLocks && n.result == m.result
        }),
{
    law_programs_below_the_source_are_named(processes, m.source);
    let running = running_in(processes, m.source);
    if running.len() > 0 {
        assert(running.contains(running[0]));
    }
}

/// A copy is accepted exactly if it is off by no more than one MiB and what was
/// skipped, and by no more than a twentieth of the whole; else it is deleted
/// and the source left as it is.
pub proof fn law_only_whole_copies_are_linked(m: MigrationView, size: u64)
    requires
        m.stage == MigrationStage::MeasureTarget,
    ensures
        ({
            let n = next(m, EventView::TargetMeasured { size });
            let expected: int = if m.total_size >= m.skipped_size {
                m.total_size - m.skipped_size
            } else {
                0
            };
            let is_whole = expected - size <= m.skipped_size + 1_048_576 && size - expected
                <= m.skipped_size + 1_048_576 && expected - size <= m.total_size / 20 && size
                - expected <= m.total_size / 20;
            &&& n.stage == MigrationStage::PreflightLink <==> is_whole
            &&& !is_whole ==> is_being_undone(n)
        }),
{
}

/// A migration goes on exactly where the target's disk has room for the source,
/// a fifth of it, and 100 MiB.
pub proof fn law_room_is_needed(
    m: MigrationView,
    available: u64,
    available_gb: Seq<char>,
    required_gb: Seq<char>,
)
    requires
        m.stage == MigrationStage::MeasureSpace,
        m.source_size + m.source_size / 5 + 104_857_600 <= u64::MAX,
    ensures
        ({
            let n = next(m, EventView::SpaceMeasured { available, available_gb, required_gb });
            &&& available >= m.source_size + m.source_size / 5 + 104_857_600 ==> n.stage
                == MigrationStage::CheckCancelBeforeCopy && n.result == m.result
            &&& available < m.source_size + m.source_size / 5 + 104_857_600 ==> is_refused(n)
        }),
{
}

/// Wherever a migration reads the cancel flag, a cancelled one ends with an
/// error, before anything has been touched.
pub proof fn law_cancelling_ends_the_migration(m: MigrationView)
    requires
        m.stage == MigrationStage::CheckCancelBeforeScan || m.stage
            == MigrationStage::CheckCancelBeforePlan || m.stage
            == MigrationStage::CheckCancelBeforeCopy,
    ensures
        ({
            let n = next(m, EventView::CancelRead { cancelled: true });
            n.stage == MigrationStage::Finished && (n.result matches Some(r) && r is Err)
        }),
        m.stage == MigrationStage::CheckCancelBeforeScan ==> next(
            m,
            EventView::CancelRead { cancelled: false },
        ).stage == MigrationStage::FindExecutables,
        m.stage == MigrationStage::CheckCancelBeforePlan ==> next(
            m,
            EventView::CancelRead { cancelled: false },
        ).stage == MigrationStage::BuildPlan,
{
}

/// A source that is missing or no directory, and a missing target directory,
/// are refused.
pub proof fn law_missing_places_are_refused(m: MigrationView, exists: bool, is_directory: bool)
    ensures
        m.stage == MigrationStage::ProbeSource && !(exists && is_directory) ==> is_refused(
            next(m, EventView::SourceProbed { exists, is_directory }),
        ),
        m.stage == MigrationStage::ProbeTargetParent && !exists ==> is_refused(
            next(m, EventView::TargetParentProbed { exists }),
        ),
{
}

/// A directory is not moved into itself.
pub proof fn law_source_is_not_moved_into_itself(m: MigrationView, target: Seq<char>)
    requires
        m.stage == MigrationStage::ProbeTargetParent,
        target_of(m.target_parent, m.source) == Some(target),
    ensures
        ({
            let n = next(m, EventView::TargetParentProbed { exists: true });
            &&& path::lies_in(target, m.source) ==> is_refused(n)
            &&& !path::lies_in(target, m.source) ==> n.stage == MigrationStage::ProbeTarget
                && n.target == target
        }),
{
}

/// What stands at the target is deleted only where that was asked for, and
/// never where the source is itself a link to it; nothing else is in the way of
/// a target that is not there.
pub proof fn law_target_in_the_way(
    m: MigrationView,
    is_directory: bool,
    source_is_directory: bool,
    source_is_junction: bool,
    junction_target: Option<Seq<char>>,
)
    requires
        m.stage == MigrationStage::ProbeTarget,
    ensures
        ({
            let there = next(
                m,
                EventView::TargetProbed {
                    exists: true,
                    is_directory,
                    source_is_directory,
                    source_is_junction,
                    junction_target,
                },
            );
            let free = next(
                m,
                EventView::TargetProbed {
                    exists: false,
                    is_directory,
                    source_is_directory,
                    source_is_junction,
                    junction_target,
                },
            );
            &&& free.stage == MigrationStage::CheckCancelBeforeScan
            &&& !m.force_overwrite ==> is_refused(there)
            &&& m.force_overwrite && !source_is_junction ==> there.stage
                == MigrationStage::RemoveStaleTarget
            &&& m.force_overwrite && source_is_junction && junction_target == Some(m.target)
                ==> is_refused(there)
        }),
{
}

/// Only a plain directory that is in the way of a plain directory is offered to
/// be overwritten.
pub proof fn law_retry_is_offered_for_directories(
    m: MigrationView,
    is_directory: bool,
    source_is_directory: bool,
    source_is_junction: bool,
    junction_target: Option<Seq<char>>,
)
    requires
        m.stage == MigrationStage::ProbeTarget,
        !m.force_overwrite,
    ensures
        ({
            let n = next(
                m,
                EventView::TargetProbed {
                    exists: true,
                    is_directory,
                    source_is_directory,
                    source_is_junction,
                    junction_target,
                },
            );
            n.result matches Some(Ok(outcome)) && outcome.message == if is_directory
                && source_is_directory && !source_is_junction {
                "TARGET_EXISTS_RETRY:"@ + m.target
            } else {
                "TARGET_EXISTS:"@ + m.target
            }
        }),
{
}

/// Whether the rules allow that a request's source be moved.
pub open spec fn is_allowed(request: MigrationRequest) -> bool {
    danger_rules::danger_of(request.source@) matches Some((level, _)) ==> level
        == DangerLevel::Warning && request.user_confirmed_warning
}

/// A source that the rules allow is gone on with.
pub proof fn law_allowed_source_is_gone_on_with(request: MigrationRequest)
    requires
        is_allowed(request),
    ensures
        next(
            started(request),
            EventView::SourceProbed { exists: true, is_directory: true },
        ) == (MigrationView { stage: MigrationStage::ProbeTargetParent, ..started(request) }),
{
}

/// With executables in the source the running programs are looked at first,
/// without them the locks alone.
pub proof fn law_executables_call_for_a_look_at_programs(m: MigrationView)
    requires
        m.stage == MigrationStage::FindExecutables,
    ensures
        next(m, EventView::ExecutablesSought { found: true }).stage
            == MigrationStage::ListProcesses,
        next(m, EventView::ExecutablesSought { found: false }).stage == MigrationStage::ProbeLocks,
{
}

/// A file in use stops the migration.
pub proof fn law_locked_files_stop_the_migration(m: MigrationView, locked: Seq<Seq<char>>)
    requires
        m.stage == MigrationStage::ProbeLocks,
        locked.len() > 0,
    ensures
        is_refused(next(m, EventView::LocksProbed { locked, cancelled: false })),
        next(m, EventView::LocksProbed { locked, cancelled: true }).result matches Some(r)
            && r is Err,
{
}

/// With no file in use the source is measured, and what it measures is the room
/// that it needs.
pub proof fn law_source_is_measured(m: MigrationView, size: u64)
    ensures
        m.stage == MigrationStage::ProbeLocks ==> next(
            m,
            EventView::LocksProbed { locked: seq![], cancelled: false },
        ).stage == MigrationStage::CheckCancelBeforePlan,
        m.stage == MigrationStage::BuildPlan ==> next(
            m,
            EventView::PlanBuilt { total_size: size },
        ) == (MigrationView { stage: MigrationStage::MeasureSpace, source_size: size, ..m }),
{
}

/// To another drive a directory is copied, on the same drive it is moved.
pub proof fn law_drive_decides_how(m: MigrationView)
    requires
        m.stage == MigrationStage::CheckCancelBeforeCopy,
        m.source.len() > 0,
        m.target.len() > 0,
    ensures
        ({
            let n = next(m, EventView::CancelRead { cancelled: false });
            &&& m.source[0] == m.target[0] ==> n.stage == MigrationStage::MoveSource
            &&& 'A' <= m.source[0] <= 'Z' && 'A' <= m.target[0] <= 'Z' && m.source[0]
                != m.target[0] ==> n.stage == MigrationStage::CreateTarget
            &&& n.source == m.source && n.target == m.target
        }),
{
}

/// What a migration reports once it has succeeded.
pub open spec fn has_moved(m: MigrationView, source: Seq<char>, target: Seq<char>) -> bool {
    &&& m.stage == MigrationStage::Finished
    &&& m.result == Some(
        Ok::<OutcomeView, Seq<char>>(
            OutcomeView {
                success: true,
                message: "迁移成功！应用已从 "@ + source + " 迁移到 "@ + target,
                new_path: Some(target),
            },
        ),
    )
}

/// Copying goes step by step: the target is made, filled and measured; then a
/// link is tried out.
pub proof fn law_copying_goes_step_by_step(m: MigrationView, total: u64, skipped: u64)
    requires
        m.stage == MigrationStage::CreateTarget,
        skipped <= total,
        total > 0 || m.source_size == 0,
    ensures
        ({
            let a = next(m, EventView::Done);
            let b = next(a, EventView::Copied { total, skipped });
            let c = next(b, EventView::TargetMeasured { size: (total - skipped) as u64 });
            &&& a.stage == MigrationStage::CopyTree
            &&& b.stage == MigrationStage::MeasureTarget
            &&& c == MigrationView {
                stage: MigrationStage::PreflightLink,
                total_size: total,
                skipped_size: skipped,
                ..m
            }
        }),
{
    let a = next(m, EventView::Done);
    lemma_done_step(m);
    let b = next(a, EventView::Copied { total, skipped });
    lemma_copied(a, total, skipped);
    law_only_whole_copies_are_linked(b, (total - skipped) as u64);
}

proof fn lemma_copied(m: MigrationView, total: u64, skipped: u64)
    requires
        m.stage == MigrationStage::CopyTree,
        total > 0 || m.source_size == 0,
    ensures
        next(m, EventView::Copied { total, skipped }) == (MigrationView {
            total_size: total,
            skipped_size: skipped,
            stage: MigrationStage::MeasureTarget,
            ..m
        }),
{
}

/// Only once a link has been tried out, and a name for the backup found, the
/// source is set aside.
pub proof fn law_source_is_set_aside_last(m: MigrationView, backup: Seq<char>)
    requires
        m.stage == MigrationStage::PreflightLink,
    ensures
        ({
            let a = next(m, EventView::Done);
            let b = next(a, EventView::BackupChosen { path: backup });
            let c = next(b, EventView::Done);
            &&& a.stage == MigrationStage::ChooseBackup
            &&& b.stage == MigrationStage::SetSourceAside
            &&& c == MigrationView { stage: MigrationStage::LinkTarget, backup, ..m }
        }),
{
    lemma_done_step(m);
    lemma_done_step(next(next(m, EventView::Done), EventView::BackupChosen { path: backup }));
}

/// The source set aside is deleted only once the link has been made and
/// confirmed.
pub proof fn law_backup_is_deleted_last(m: MigrationView)
    requires
        m.stage == MigrationStage::LinkTarget,
    ensures
        ({
            let a = next(m, EventView::Done);
            let b = next(a, EventView::Done);
            &&& a.stage == MigrationStage::VerifyLink
            &&& b == MigrationView { stage: MigrationStage::RemoveBackup, ..m }
        }),
{
    lemma_done_step(m);
    lemma_done_step(next(m, EventView::Done));
}

/// With the source set aside deleted, the migration is recorded and reported as
/// a success.
pub proof fn law_migration_ends_in_success(m: MigrationView)
    requires
        m.stage == MigrationStage::RemoveBackup,
        m.warning is None,
    ensures
        next(m, EventView::Done).stage == MigrationStage::Record,
        has_moved(next(next(m, EventView::Done), EventView::Done), m.source, m.target),
{
    lemma_done_step(m);
    lemma_recorded(next(m, EventView::Done));
}

/// Where a step that went well leads to.
spec fn stage_when_done(stage: MigrationStage) -> MigrationStage {
    match stage {
        MigrationStage::CreateTarget => MigrationStage::CopyTree,
        MigrationStage::PreflightLink => MigrationStage::ChooseBackup,
        MigrationStage::SetSourceAside => MigrationStage::LinkTarget,
        MigrationStage::LinkTarget => MigrationStage::VerifyLink,
        MigrationStage::VerifyLink => MigrationStage::RemoveBackup,
        MigrationStage::RemoveBackup => MigrationStage::Record,
        _ => stage,
    }
}

proof fn lemma_done_step(m: MigrationView)
    requires
        m.stage == MigrationStage::CreateTarget || m.stage == MigrationStage::PreflightLink
            || m.stage == MigrationStage::SetSourceAside || m.stage == MigrationStage::LinkTarget
            || m.stage == MigrationStage::VerifyLink || m.stage == MigrationStage::RemoveBackup,
    ensures
        next(m, EventView::Done) == (MigrationView { stage: stage_when_done(m.stage), ..m }),
{
}

proof fn lemma_recorded(m: MigrationView)
    requires
        m.stage == MigrationStage::Record,
        m.warning is None,
    ensures
        has_moved(next(m, EventView::Done), m.source, m.target),
{
}

/// Moving goes step by step: the source is renamed, a link put in its place,
/// and success reported.
pub proof fn law_moving_goes_step_by_step(m: MigrationView)
    requires
        m.stage == MigrationStage::MoveSource,
        m.warning is None,
    ensures
        ({
            let a = next(m, EventView::Done);
            let b = next(a, EventView::Done);
            let c = next(b, EventView::Done);
            &&& a.stage == MigrationStage::LinkMoved
            &&& b.stage == MigrationStage::Record
            &&& has_moved(c, m.source, m.target)
        }),
{
}

/// A rename that the system refuses because it leads to another drive gives way
/// to copying; any other failure ends the migration and is told.
pub proof fn law_failed_rename(m: MigrationView, code: Option<i32>, reason: Seq<char>)
    requires
        m.stage == MigrationStage::MoveSource,
    ensures
        ({
            let n = next(m, EventView::Failed { code, reason });
            &&& code == Some(17i32) ==> n.stage == MigrationStage::CreateTarget && n.result
                == m.result
            &&& code != Some(17i32) ==> is_refused(n) && tells(n.result->0->Ok_0.message, reason)
        }),
{
    let n = next(m, EventView::Failed { code, reason });
    if code != Some(17i32) {
        let number = match code {
            Some(n) => n as int,
            None => 0,
        };
        lemma_tells(
            "移动目录失败（错误码 "@ + text::signed_decimal(number) + "）："@,
            reason,
            "\n如目标路径已存在残留目录，请手动删除后重试。"@,
        );
    }
}

/// A copy that finds nothing in a source that is not empty, and a step before
/// the switch that fails, have the target deleted and name no new path.
pub proof fn law_failure_before_the_switch_is_undone(m: MigrationView, e: EventView)
    requires
        m.stage == MigrationStage::BuildPlan || m.stage == MigrationStage::CopyTree || m.stage
            == MigrationStage::PreflightLink || m.stage == MigrationStage::ChooseBackup || m.stage
            == MigrationStage::SetSourceAside,
        e is Failed || (m.stage == MigrationStage::CopyTree && m.source_size > 0 && (e matches
            EventView::Copied { total, skipped } && total == 0)),
    ensures
        is_being_undone(next(m, e)),
        next(m, e).pending->0.new_path is None,
{
}

/// Whether or not the target could be deleted, the failure is reported.
pub proof fn law_failure_is_reported(m: MigrationView, outcome: OutcomeView, e: EventView)
    requires
        m.stage == MigrationStage::CleanTarget,
        m.pending == Some(outcome),
        e is Done || e is Failed,
    ensures
        next(m, e).stage == MigrationStage::Finished,
        next(m, e).result == Some(Ok::<OutcomeView, Seq<char>>(outcome)),
{
}

/// Why a step before the switch failed is told.
pub proof fn law_reason_before_the_switch_is_told(m: MigrationView, e: EventView)
    requires
        m.stage == MigrationStage::BuildPlan || m.stage == MigrationStage::CopyTree || m.stage
            == MigrationStage::PreflightLink || m.stage == MigrationStage::ChooseBackup || m.stage
            == MigrationStage::SetSourceAside,
        e is Failed,
    ensures
        next(m, e).pending matches Some(outcome) && tells(outcome.message, e->Failed_reason),
{
    let reason = e->Failed_reason;
    let n = next(m, e);
    let message = n.pending->0.message;
    if m.stage == MigrationStage::BuildPlan {
        lemma_tells(seq![], reason, seq![]);
        assert(seq![] + reason + seq![] =~= message);
    } else if m.stage == MigrationStage::CopyTree {
        if super::is_access_denied(reason) {
            let told = message.take(message.len() - reason.len());
            lemma_tells(told, reason, seq![]);
            assert(told + reason + seq![] =~= message);
        } else {
            lemma_tells(seq![], reason, seq![]);
            assert(seq![] + reason + seq![] =~= message);
        }
    } else if m.stage == MigrationStage::PreflightLink {
        lemma_tells(
            "创建目录链接预检失败，迁移中止。\n已自动清理目标副本，原数据完好无损。\n\n失败原因："@,
            reason,
            "\n\n建议：以管理员身份运行本程序后重试。"@,
        );
    } else if m.stage == MigrationStage::ChooseBackup {
        lemma_tells("迁移中止：无法准备安全切换。\n\n"@, reason, "\n\n原数据仍完整保留。"@);
    } else {
        lemma_tells(
            "迁移中止：原目录仍被其他程序占用，未删除任何源文件。\n已自动清理目标副本，原数据完好无损。\n\n失败路径："@
                + m.source + "\n失败原因："@,
            reason,
            "\n\n常见解决方案：\n• 文件被程序占用 → 关闭相关程序（浏览器、游戏、编辑器等）后重试\n• 权限不足 → 以管理员身份运行本程序后重试\n• 只读保护 → 以管理员身份运行后程序会自动解除只读属性"@,
        );
    }
}

/// A link that cannot be made in the place of a source that was moved or set
/// aside, or that cannot be confirmed, has the source brought back.
pub proof fn law_failed_link_is_rolled_back(m: MigrationView, code: Option<i32>, reason: Seq<char>)
    ensures
        m.stage == MigrationStage::LinkMoved ==> next(m, EventView::Failed { code, reason }) == (
        MigrationView { stage: MigrationStage::MoveBack, reason, ..m }),
        m.stage == MigrationStage::LinkTarget ==> next(m, EventView::Failed { code, reason }) == (
        MigrationView { stage: MigrationStage::RestoreUnlinked, reason, ..m }),
        m.stage == MigrationStage::VerifyLink ==> next(m, EventView::Failed { code, reason }) == (
        MigrationView { stage: MigrationStage::RestoreUnverified, reason, ..m }),
{
}

/// A source that was brought back is not reported as moved, and why there is no
/// link is told.
pub proof fn law_source_brought_back_is_reported(m: MigrationView)
    ensures
        m.stage == MigrationStage::MoveBack ==> is_refused(next(m, EventView::Done)) && tells(
            next(m, EventView::Done).result->0->Ok_0.message,
            m.reason,
        ),
        m.stage == MigrationStage::RestoreUnlinked || m.stage == MigrationStage::RestoreUnverified
            ==> is_being_undone(next(m, EventView::Done)) && tells(
            next(m, EventView::Done).pending->0.message,
            m.reason,
        ),
{
    let restored = "\n\n您的数据已完整恢复到："@ + m.source;
    lemma_tells(seq![], m.reason, restored);
    assert(seq![] + m.reason + restored =~= super::restored_message(m.reason, m.source));
    let back = "\n\n"@ + ("原数据已完整恢复到："@ + m.source);
    lemma_tells("目录链接确认失败，迁移已中止。\n\n"@, m.reason, back);
    assert("目录链接确认失败，迁移已中止。\n\n"@ + m.reason + back =~= super::unverified_message(
        m.reason,
        "原数据已完整恢复到："@ + m.source,
    ));
}

/// A source that cannot be brought back either ends the migration with a
/// failure that names the place of the data and, where the source was set
/// aside, tells where it still stands.
pub proof fn law_unrestored_data_is_named(m: MigrationView, code: Option<i32>, reason: Seq<char>)
    requires
        m.stage == MigrationStage::MoveBack || m.stage == MigrationStage::RestoreUnlinked || m.stage
            == MigrationStage::RestoreUnverified,
    ensures
        ({
            let n = next(m, EventView::Failed { code, reason });
            &&& n.stage == MigrationStage::Finished
            &&& n.result matches Some(Ok(outcome)) && !outcome.success && outcome.new_path == Some(
                m.target,
            ) && (m.stage != MigrationStage::MoveBack ==> tells(outcome.message, m.backup))
        }),
{
    let n = next(m, EventView::Failed { code, reason });
    let message = n.result->0->Ok_0.message;
    if m.stage == MigrationStage::RestoreUnlinked {
        let before = "SYMLINK_FAILED_DATA_AT_TARGET:"@ + m.target
            + "\n创建目录链接失败，自动恢复也未完成。\n\n⚠️ 数据副本仍完整保存在："@ + m.target + "\n原目录备份仍保留在："@;
        let after = message.skip((before + m.backup).len() as int);
        lemma_tells(before, m.backup, after);
        assert(before + m.backup + after =~= message);
    } else if m.stage == MigrationStage::RestoreUnverified {
        let before = "目录链接确认失败，迁移已中止。\n\n"@ + m.reason + "\n\n"@
            + "自动恢复未完成。原数据备份仍保留在："@;
        let after = "；恢复原因："@ + reason;
        lemma_tells(before, m.backup, after);
        assert(before + m.backup + after =~= message);
    }
}

/// A source set aside that cannot be deleted does not undo the migration: it is
/// left to the next start, and goes on with a warning that tells what is left
/// and where.
pub proof fn law_leftover_backup_is_only_a_warning(
    m: MigrationView,
    code: Option<i32>,
    reason: Seq<char>,
    scheduled: bool,
)
    ensures
        m.stage == MigrationStage::RemoveBackup ==> next(m, EventView::Failed { code, reason })
            == (MigrationView { stage: MigrationStage::ScheduleBackupRemoval, reason, ..m }),
        m.stage == MigrationStage::ScheduleBackupRemoval ==> {
            let n = next(m, EventView::RemovalScheduled { scheduled });
            &&& n.stage == MigrationStage::Record
            &&& n.warning is Some && tells(n.warning->0, m.backup)
            &&& !scheduled ==> tells(n.warning->0, m.reason)
        },
{
    lemma_tells(
        "临时备份目录清理失败（文件被占用），已安排在下次重启时自动删除。\n残留目录："@,
        m.backup,
        "。"@,
    );
    let before = "临时备份目录清理失败，仍保留在："@;
    let middle = "。\n原因："@;
    let end = "。\n该目录已被扫描过滤，不会被识别为新应用；\n其中被占用的文件通常在注销或重启系统后释放，届时可手动删除此目录。"@;
    lemma_tells(before, m.backup, middle + m.reason + end);
    assert(before + m.backup + (middle + m.reason + end) =~= super::backup_warning(m, false));
    lemma_tells(before + m.backup + middle, m.reason, end);
}

/// A warning does not take away the success; it is told with it.
pub proof fn law_warning_is_told_with_the_success(m: MigrationView, warning: Seq<char>)
    requires
        m.stage == MigrationStage::Record,
        m.warning == Some(warning),
    ensures
        ({
            let n = next(m, EventView::Done);
            n.result matches Some(Ok(outcome)) && outcome.success && outcome.new_path == Some(
                m.target,
            ) && tells(outcome.message, warning)
        }),
{
    let before = super::success_message(m.source, m.target) + "\n\n⚠️ "@;
    lemma_tells(before, warning, seq![]);
    assert(before + warning + seq![] =~= before + warning);
}

/// Nothing changes a migration that has ended.
pub proof fn law_ended_migration_stays(m: MigrationView, e: EventView)
    requires
        m.stage == MigrationStage::Finished,
    ensures
        next(m, e) == m,
{
}

} // verus!
