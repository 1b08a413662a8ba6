//! What every step of a migration and of a restore keeps, and what the user is
//! told.

use vstd::prelude::*;

use super::copy_engine::{
    copy_error_message, needs_directory, occupied_message, CopyPlan, FileCount,
};
use super::links::{link_failure, preflight_failure, PreflightProbe};
use super::migration_laws::{is_refused, lemma_tells, runs_below, tells};
use super::restore::{RestoreEventView, RestoreStage, RestoreView};
use super::tree_copy::{TreeCopy, TreeEvent, TreeStage};
use super::{
    copy_failure_message, is_access_denied, locked_message, loop_form, next, running_in,
    same_drive, target_of, EventView, MigrationStage, MigrationView, ProcessView,
};
use crate::list;
use crate::path;
use crate::text;

verus! {

/// A source is moved to a directory of its own name below the chosen one; one
/// without a name is moved nowhere.
pub proof fn law_where_a_source_is_moved_to(parent: Seq<char>, source: Seq<char>, name: Seq<char>)
    ensures
        path::last_name(source) == Some(name) ==> target_of(parent, source) == Some(
            path::joined(parent, name),
        ),
        path::last_name(source) is None ==> target_of(parent, source) is None,
{
}

/// A link leads to the target of a migration also where it is written with a
/// backslash at its end or, of ASCII characters, in another case.
pub proof fn law_links_in_a_circle(a: Seq<char>, b: Seq<char>)
    ensures
        text::all_ascii(a) && text::all_ascii(b) && text::ascii_lowercase(a)
            == text::ascii_lowercase(b) ==> loop_form(a) == loop_form(b),
        text::all_ascii(a) ==> loop_form(a.push('\\')) == loop_form(a),
        text::all_ascii(a) && a.len() > 0 && a.last() != '\\' ==> loop_form(a)
            == text::ascii_lowercase(a),
{
    if text::all_ascii(a) {
        let c = a.push('\\');
        assert(text::all_ascii(c));
        let low = text::ascii_lowercase(c);
        assert(low.last() == '\\');
        assert(low.drop_last() =~= text::ascii_lowercase(a));
        if a.len() > 0 && a.last() != '\\' {
            assert(text::ascii_lowercase(a).last() == text::ascii_lower(a.last()));
            assert(text::ascii_lower(a.last()) != '\\');
        }
    }
}

/// Drives are told by their letter, in whatever case.
pub proof fn law_same_drive_in_either_case(source: Seq<char>, target: Seq<char>)
    requires
        source.len() > 0,
        target.len() > 0,
        text::is_ascii_letter(source[0]),
        text::is_ascii_letter(target[0]),
    ensures
        same_drive(source, target) <==> text::ascii_lower(source[0]) == text::ascii_lower(
            target[0],
        ),
{
}

/// What a migration was asked for never changes on the way.
#[verifier::rlimit(60)]
#[verifier::spinoff_prover]
pub proof fn law_request_is_kept(m: MigrationView, e: EventView)
    ensures
        next(m, e).app_name == m.app_name,
        next(m, e).record_type == m.record_type,
        next(m, e).source == m.source,
        next(m, e).target_parent == m.target_parent,
        next(m, e).force_overwrite == m.force_overwrite,
        next(m, e).user_confirmed_warning == m.user_confirmed_warning,
        m.stage != MigrationStage::ProbeTargetParent ==> next(m, e).target == m.target,
        m.stage != MigrationStage::ChooseBackup ==> next(m, e).backup == m.backup,
        m.stage != MigrationStage::BuildPlan ==> next(m, e).source_size == m.source_size,
        m.stage != MigrationStage::CopyTree ==> next(m, e).total_size == m.total_size,
{
}

/// Whether an event answers what a stage asks.
pub open spec fn answers(stage: MigrationStage, e: EventView) -> bool {
    match stage {
        MigrationStage::ProbeSource => e is SourceProbed,
        MigrationStage::ProbeTargetParent => e is TargetParentProbed,
        MigrationStage::ProbeTarget => e is TargetProbed,
        MigrationStage::CheckCancelBeforeScan | MigrationStage::CheckCancelBeforePlan
        | MigrationStage::CheckCancelBeforeCopy => e is CancelRead,
        MigrationStage::FindExecutables => e is ExecutablesSought,
        MigrationStage::ListProcesses => e is ProcessesListed,
        MigrationStage::ProbeLocks => e is LocksProbed,
        MigrationStage::BuildPlan => e is PlanBuilt || e is Failed,
        MigrationStage::MeasureSpace => e is SpaceMeasured,
        MigrationStage::CopyTree => e is Copied || e is Failed,
        MigrationStage::MeasureTarget => e is TargetMeasured,
        MigrationStage::ChooseBackup => e is BackupChosen || e is Failed,
        MigrationStage::ScheduleBackupRemoval => e is RemovalScheduled,
        MigrationStage::Record => e is Done,
        MigrationStage::Finished => false,
        _ => e is Done || e is Failed,
    }
}

/// An event that does not answer what the stage asks changes nothing.
#[verifier::rlimit(60)]
#[verifier::spinoff_prover]
pub proof fn law_unasked_events_change_nothing(m: MigrationView, e: EventView)
    requires
        !answers(m.stage, e),
    ensures
        next(m, e) == m,
{
}

/// What is in the way of the target and could be deleted is no hindrance; what
/// could not be deleted, and a target that cannot be made, end the migration
/// with the reason.
pub proof fn law_target_that_cannot_be_made(m: MigrationView, code: Option<i32>, reason: Seq<char>)
    ensures
        m.stage == MigrationStage::RemoveStaleTarget ==> next(m, EventView::Done).stage
            == MigrationStage::CheckCancelBeforeScan,
        m.stage == MigrationStage::RemoveStaleTarget || m.stage == MigrationStage::CreateTarget
            ==> {
            let n = next(m, EventView::Failed { code, reason });
            &&& n.stage == MigrationStage::Finished
            &&& n.result matches Some(Err(told)) && tells(told, reason)
        },
{
    let a = "无法删除残留目录: "@ + m.target + "。请手动删除后重试。原因: "@;
    lemma_tells(a, reason, seq![]);
    assert(a + reason + seq![] =~= a + reason);
    let b = "创建目标目录失败: "@;
    lemma_tells(b, reason, seq![]);
    assert(b + reason + seq![] =~= b + reason);
}

proof fn lemma_joined_tells(parts: Seq<Seq<char>>, sep: Seq<char>, i: int)
    requires
        0 <= i < parts.len(),
    ensures
        tells(text::joined(parts, sep), parts[i]),
    decreases parts.len(),
{
    let all = text::joined(parts, sep);
    if parts.len() == 1 {
        lemma_tells(seq![], parts[0], seq![]);
        assert(seq![] + parts[0] + seq![] =~= all);
    } else if i == parts.len() - 1 {
        let front = text::joined(parts.drop_last(), sep) + sep;
        lemma_tells(front, parts[i], seq![]);
        assert(front + parts[i] + seq![] =~= all);
    } else {
        let front = parts.drop_last();
        assert(front[i] == parts[i]);
        lemma_joined_tells(front, sep, i);
        let (x, y) = choose|x: Seq<char>, y: Seq<char>|
            text::joined(front, sep) == #[trigger] (x + parts[i] + y);
        let rest = y + sep + parts.last();
        lemma_tells(x, parts[i], rest);
        assert(x + parts[i] + rest =~= all);
    }
}

proof fn lemma_tells_within(before: Seq<char>, middle: Seq<char>, after: Seq<char>, part: Seq<char>)
    requires
        tells(middle, part),
    ensures
        tells(before + middle + after, part),
{
    let (x, y) = choose|x: Seq<char>, y: Seq<char>| middle == #[trigger] (x + part + y);
    lemma_tells(before + x, part, y + after);
    assert(before + x + part + (y + after) =~= before + middle + after);
}

/// A refusal because of running programs tells the name of each.
pub proof fn law_running_programs_are_told(
    m: MigrationView,
    processes: Seq<ProcessView>,
    i: int,
)
    requires
        m.stage == MigrationStage::ListProcesses,
        0 <= i < processes.len(),
        runs_below(processes[i], m.source),
    ensures
        ({
            let n = next(m, EventView::ProcessesListed { processes });
            is_refused(n) && tells(n.result->0->Ok_0.message, processes[i].name)
        }),
{
    super::migration_laws::law_programs_below_the_source_are_named(processes, m.source);
    super::migration_laws::law_running_program_stops_the_migration(m, processes);
    let running = running_in(processes, m.source);
    let k = choose|k: int| 0 <= k < running.len() && running[k] == processes[i].name;
    lemma_joined_tells(running, "、"@, k);
    let head = "检测到以下程序正在运行，请关闭后重试：\n"@;
    let names = text::joined(running, "、"@);
    lemma_tells_within(head, names, seq![], processes[i].name);
    assert(head + names + seq![] =~= head + names);
}

/// A refusal because of files in use tells each of them.
pub proof fn law_locked_files_are_told(locked: Seq<Seq<char>>, has_executable: bool, i: int)
    requires
        0 <= i < locked.len(),
    ensures
        tells(locked_message(locked, has_executable), locked[i]),
{
    let lines = super::locked_lines(locked);
    assert(lines[i] == "  • "@ + locked[i]);
    lemma_joined_tells(lines, "\n"@, i);
    let body = text::joined(lines, "\n"@);
    let (x, y) = choose|x: Seq<char>, y: Seq<char>| body == #[trigger] (x + lines[i] + y);
    lemma_tells(x + "  • "@, locked[i], y);
    assert(x + "  • "@ + locked[i] + y =~= body);
    let message = locked_message(locked, has_executable);
    let head = "目录中有文件正被其他程序占用，无法迁移。\n\n被占用的文件：\n"@;
    let tail = message.skip((head + body).len() as int);
    lemma_tells_within(head, body, tail, locked[i]);
    assert(head + body + tail =~= message);
}

/// A copy that was denied access is explained, any other failure told as it is.
pub proof fn law_denied_access_is_explained(reason: Seq<char>)
    ensures
        tells(copy_failure_message(reason), reason),
        !is_access_denied(reason) ==> copy_failure_message(reason) == reason,
        is_access_denied(reason) ==> copy_failure_message(reason).len() > reason.len(),
        text::contains_text(reason, "os error 5"@) ==> is_access_denied(reason),
        text::contains_text(reason, "拒绝访问"@) ==> is_access_denied(reason),
        text::contains_text(reason, "Access is denied"@) ==> is_access_denied(reason),
{
    let message = copy_failure_message(reason);
    let head = message.take(message.len() - reason.len());
    lemma_tells(head, reason, seq![]);
    assert(head + reason + seq![] =~= message);
    reveal_strlit(
        "复制失败：部分文件被 Windows 系统内核映射，无法在运行时复制。\n\n常见原因：开发工具（Visual Studio、JetBrains 等）的编译器、语言服务进程（MSBuild、VBCSCompiler、ServiceHub 等）仍在后台运行。\n\n解决方案：\n1. 完全退出所有 IDE 实例（包括系统托盘图标）\n2. 打开任务管理器，结束所有 MSBuild、VBCSCompiler、ServiceHub、dotnet 相关进程\n3. 等待 10 秒后重试\n\n原始错误：",
    );
}

/// A restore keeps to its two places, and to the size that was planned.
pub proof fn law_restore_keeps_its_places(r: RestoreView, e: RestoreEventView)
    ensures
        super::restore::next(r, e).original == r.original,
        super::restore::next(r, e).target == r.target,
        r.stage != RestoreStage::BuildPlan ==> super::restore::next(r, e).total_size
            == r.total_size,
        r.stage != RestoreStage::MeasureOriginal ==> super::restore::next(r, e).restored_size
            == r.restored_size,
        r.stage == RestoreStage::Finished ==> super::restore::next(r, e) == r,
{
}

/// Every directory of a plan is made, and so is that of every file and of every
/// link in it.
pub proof fn law_directories_that_are_made(plan: CopyPlan, dir: Seq<char>)
    ensures
        list::holds_text(plan.dir_list@, dir) ==> needs_directory(plan, dir),
        forall|i: int|
            0 <= i < plan.file_list@.len() && (#[trigger] plan.file_list@[i]).parent@.len() > 0
                ==> needs_directory(plan, plan.file_list@[i].parent@),
        forall|i: int|
            0 <= i < plan.link_list@.len() && (#[trigger] plan.link_list@[i]).parent@.len() > 0
                ==> needs_directory(plan, plan.link_list@[i].parent@),
{
}

/// A step that fails ends the copying with an error that gives the reason and,
/// of a directory or a link, the place; so does the user who cancels it.
pub proof fn law_failed_step_ends_the_copy(copy: TreeCopy, event: TreeEvent, next: TreeCopy)
    requires
        !(copy.stage is Finished),
        copy.becomes(event, next),
    ensures
        event is Failed || event is Cancelled || event is PoolFailed ==> next.stage is Finished
            && next.result is Some && next.result->0 is Err && next.made == copy.made
            && next.copied == copy.copied && next.linked == copy.linked,
        event matches TreeEvent::Failed { reason } ==> tells(next.result->0->Err_0@, reason@),
        event is Failed && copy.stage is MakeDirectory ==> tells(
            next.result->0->Err_0@,
            copy.directory_place(),
        ),
        event is Failed && copy.stage is MakeLink ==> tells(
            next.result->0->Err_0@,
            copy.link_place(),
        ),
        event matches TreeEvent::PoolFailed { reason } ==> tells(next.result->0->Err_0@, reason@),
{
    if let TreeEvent::Failed { reason } = event {
        let message = next.result->0->Err_0@;
        match copy.stage {
            TreeStage::MakeDirectory => {
                let place = copy.directory_place();
                lemma_tells("创建目录失败 "@, place, ": "@ + reason@);
                assert("创建目录失败 "@ + place + (": "@ + reason@) =~= message);
                lemma_tells("创建目录失败 "@ + place + ": "@, reason@, seq![]);
                assert("创建目录失败 "@ + place + ": "@ + reason@ + seq![] =~= message);
            },
            TreeStage::MakeLink => {
                let place = copy.link_place();
                let target = copy.links@[copy.linked as int].target@;
                let end = " -> "@ + target + ": "@ + reason@;
                lemma_tells("重建目录链接失败 "@, place, end);
                assert("重建目录链接失败 "@ + place + end =~= message);
                let start = "重建目录链接失败 "@ + place + " -> "@ + target + ": "@;
                lemma_tells(start, reason@, seq![]);
                assert(start + reason@ + seq![] =~= message);
            },
            _ => {
                lemma_tells(seq![], reason@, seq![]);
                assert(Seq::<char>::empty() + reason@ + seq![] =~= message);
            },
        }
    }
    if let TreeEvent::PoolFailed { reason } = event {
        lemma_tells("创建复制线程池失败: "@, reason@, seq![]);
        assert("创建复制线程池失败: "@ + reason@ + seq![] =~= next.result->0->Err_0@);
    }
}

/// Directories are made one after another, then the files copied, then the
/// links made; a file of which nothing was copied counts with its size as left
/// out, any other does not.
pub proof fn law_tree_is_copied_step_by_step(copy: TreeCopy, bytes: u64, next: TreeCopy)
    requires
        copy.well_formed(),
    ensures
        copy.stage is MakeDirectory && copy.becomes(TreeEvent::Done, next) ==> next.made
            == copy.made + 1 && (copy.made + 1 < copy.directories@.len() ==> next.stage
            is MakeDirectory) && (copy.made + 1 == copy.directories@.len() && copy.files@.len() > 0
            ==> next.stage is CopyFile),
        copy.stage is CopyFile && copy.becomes(TreeEvent::Copied { bytes }, next) ==> next.copied
            == copy.copied + 1 && next.result is None && next.skipped - copy.skipped == (if bytes
            == 0 {
            copy.files@[copy.copied as int].size as int
        } else {
            0
        }) && (copy.copied + 1 < copy.files@.len() <==> next.stage is CopyFile),
        copy.stage is CheckCancel && copy.becomes(TreeEvent::Done, next) ==> (copy.links@.len() > 0
            <==> next.stage is MakeLink),
        copy.stage is MakeLink && copy.becomes(TreeEvent::Done, next) ==> next.linked == copy.linked
            + 1 && (copy.linked + 1 < copy.links@.len() <==> next.stage is MakeLink),
{
}

/// All that is made lies in the target.
pub proof fn law_what_is_made_lies_in_the_target(copy: TreeCopy)
    requires
        path::is_on_disk(copy.target_root@),
    ensures
        copy.made < copy.directories@.len() && path::prefix_kind(
            copy.directories@[copy.made as int]@,
        ) is Nothing && !path::has_separator_at_root(copy.directories@[copy.made as int]@)
            ==> path::lies_in(copy.directory_place(), copy.target_root@),
        copy.linked < copy.links@.len() && path::prefix_kind(
            copy.links@[copy.linked as int].relative_path@,
        ) is Nothing && !path::has_separator_at_root(
            copy.links@[copy.linked as int].relative_path@,
        ) ==> path::lies_in(copy.link_place(), copy.target_root@),
{
    let directory = copy.directories@[copy.made as int]@;
    let link = copy.links@[copy.linked as int].relative_path@;
    if path::prefix_kind(directory) is Nothing && !path::has_separator_at_root(directory) {
        path::law_joined_adds_the_names(copy.target_root@, directory);
        assert(path::components(copy.target_root@).is_prefix_of(
            path::components(path::joined(copy.target_root@, directory)),
        ));
    }
    if path::prefix_kind(link) is Nothing && !path::has_separator_at_root(link) {
        path::law_joined_adds_the_names(copy.target_root@, link);
        assert(path::components(copy.target_root@).is_prefix_of(
            path::components(path::joined(copy.target_root@, link)),
        ));
    }
}

/// What counts of a file never falls, never exceeds its size, and reaches its
/// size once all of it was transferred.
pub proof fn law_progress_of_a_file(count: FileCount, transferred: u64)
    requires
        count.well_formed(),
    ensures
        count.counted <= count.counted_at(transferred) <= count.size,
        transferred >= count.size ==> count.counted_at(transferred) == count.size,
        count.counted <= transferred <= count.size ==> count.counted_at(transferred)
            == transferred,
{
}

/// A file that could not be copied is named to the user; one that a program
/// keeps in use with the advice to close the program, any other with the code.
pub proof fn law_file_that_was_not_copied_is_named(src: Seq<char>, code: u32)
    ensures
        tells(copy_error_message(src, code), src),
        code == 5 || code == 32 ==> copy_error_message(src, code) == occupied_message(src),
        code != 5 && code != 32 ==> tells(
            copy_error_message(src, code),
            text::decimal(code as nat),
        ),
{
    let number = text::decimal(code as nat);
    let long =
        "：路径不存在或路径过长）\n请确认源文件与目标目录仍然存在；若目标目录被移动或删除，请重新选择迁移目录后重试。"@;
    let end = if code == 3 || code == 206 {
        long
    } else {
        "）"@
    };
    let message = copy_error_message(src, code);
    if code == 5 || code == 32 {
        lemma_tells(
            "复制过程中文件被程序占用: "@,
            src,
            "\n请关闭相关程序后重试。"@,
        );
    } else {
        let rest = "（错误码 "@ + number + end;
        lemma_tells("复制文件失败 "@, src, rest);
        assert("复制文件失败 "@ + src + rest =~= message);
        let start = "复制文件失败 "@ + src + "（错误码 "@;
        lemma_tells(start, number, end);
        assert(start + number + end =~= message);
    }
}

/// A trial link counts only where it was made and removed again; everything
/// else stops the migration with a reason.
pub proof fn law_only_a_removed_trial_link_counts(probe: PreflightProbe, source: Seq<char>)
    ensures
        preflight_failure(probe, source) is None <==> probe is Removed,
        probe matches PreflightProbe::NotMade { reason } ==> preflight_failure(probe, source)
            == Some(reason@),
{
}

/// Why a link could not be made is told with the code.
pub proof fn law_code_of_a_failed_link_is_told(code: i32, reason: Seq<char>)
    ensures
        tells(link_failure(code, reason), text::signed_decimal(code as int)),
        code != 1314 && code != 5 ==> tells(link_failure(code, reason), reason),
{
    let number = text::signed_decimal(code as int);
    if code == 1314 || code == 5 {
        lemma_tells(
            "创建目录链接失败：权限不足（错误码 "@,
            number,
            "）。\n\nJunction 和软链接均失败，请以管理员身份运行本程序后重试。"@,
        );
    } else {
        let advice = "\n\n请以管理员身份运行本程序后重试。"@;
        let start = "创建目录链接失败（错误码 "@;
        let rest = "）："@ + reason + advice;
        lemma_tells(start, number, rest);
        assert(start + number + rest =~= link_failure(code, reason));
        lemma_tells(start + number + "）："@, reason, advice);
    }
}

} // verus!
