//! Moving a directory to another disk behind a directory link.
//!
//! [`Migration`] is the procedure as a state machine. Its stage says what is to
//! be done next; the caller does it and hands back an event that says how it
//! went. Nothing here touches a disk.

#![verifier::loop_isolation(false)]

use vstd::prelude::*;

use crate::models::{MigrationRecordType, MigrationResult};
use crate::path;
use crate::text;

pub mod cleanup;
pub mod copy_engine;
pub mod copy_laws;
pub mod danger_rules;
pub mod links;
pub mod migration_laws;
pub mod occupancy;
pub mod restore;
pub mod restore_laws;
pub mod space;
pub mod step_laws;
pub mod tree_copy;

use danger_rules::{check_dangerous_path, DangerLevel};

verus! {

/// What the user asks for.
#[derive(Debug)]
pub struct MigrationRequest {
    pub app_name: String,
    pub source: String,
    pub target_parent: String,
    pub record_type: MigrationRecordType,
    /// Whether an existing target may be deleted first.
    pub force_overwrite: bool,
    /// Whether the user has confirmed the warning on the source.
    pub user_confirmed_warning: bool,
}

/// What is to be done next.
#[derive(Debug, Clone, Copy, PartialEq, Eq, Structural)]
pub enum MigrationStage {
    /// See whether the source exists and is a directory.
    ProbeSource,
    /// See whether the target's parent exists, and name the target.
    ProbeTargetParent,
    /// See what stands at the target.
    ProbeTarget,
    /// Delete the directory that stands at the target.
    RemoveStaleTarget,
    /// Read the cancel flag.
    CheckCancelBeforeScan,
    /// Look for executables in the source, five levels deep.
    FindExecutables,
    /// List the running processes.
    ListProcesses,
    /// Try to open every file of the source exclusively.
    ProbeLocks,
    /// Read the cancel flag.
    CheckCancelBeforePlan,
    /// List and measure what is to be copied.
    BuildPlan,
    /// Compare the free space with the space that is needed.
    MeasureSpace,
    /// Read the cancel flag.
    CheckCancelBeforeCopy,
    /// Rename the source to the target.
    MoveSource,
    /// Put a link to the renamed directory in the source's place.
    LinkMoved,
    /// Rename the target back to the source.
    MoveBack,
    /// Create the target directory.
    CreateTarget,
    /// Copy the source into the target.
    CopyTree,
    /// Measure the target.
    MeasureTarget,
    /// Try out a link beside the source.
    PreflightLink,
    /// Find a free name for the backup beside the source.
    ChooseBackup,
    /// Rename the source to the backup.
    SetSourceAside,
    /// Put a link to the target in the source's place.
    LinkTarget,
    /// Confirm that the link leads to the target.
    VerifyLink,
    /// Rename the backup back to the source: the link was not confirmed.
    RestoreUnverified,
    /// Rename the backup back to the source: no link could be made.
    RestoreUnlinked,
    /// Delete the backup.
    RemoveBackup,
    /// Have the backup deleted at the next restart.
    ScheduleBackupRemoval,
    /// Write the migration to the history.
    Record,
    /// Delete the target.
    CleanTarget,
    /// Nothing: the result is there.
    Finished,
}

/// A running process.
#[derive(Debug)]
pub struct ProcessInfo {
    pub name: String,
    /// Path of its executable, where it is known.
    pub exe: Option<String>,
}

/// How the step that a stage asks for went.
#[derive(Debug)]
pub enum MigrationEvent {
    SourceProbed { exists: bool, is_directory: bool },
    TargetParentProbed { exists: bool },
    TargetProbed {
        exists: bool,
        is_directory: bool,
        source_is_directory: bool,
        source_is_junction: bool,
        junction_target: Option<String>,
    },
    CancelRead { cancelled: bool },
    ExecutablesSought { found: bool },
    ProcessesListed { processes: Vec<ProcessInfo> },
    LocksProbed { locked: Vec<String>, cancelled: bool },
    PlanBuilt { total_size: u64 },
    /// The texts give the free and the needed space in GB.
    SpaceMeasured { available: u64, available_gb: String, required_gb: String },
    /// The whole tree was copied: so many bytes, of which some were skipped.
    Copied { total: u64, skipped: u64 },
    TargetMeasured { size: u64 },
    BackupChosen { path: String },
    RemovalScheduled { scheduled: bool },
    Done,
    Failed { code: Option<i32>, reason: String },
}

/// A migration under way.
#[derive(Debug)]
pub struct Migration {
    pub request: MigrationRequest,
    pub stage: MigrationStage,
    pub target: String,
    pub has_executable: bool,
    pub source_size: u64,
    pub total_size: u64,
    pub skipped_size: u64,
    pub backup: String,
    /// Why the step failed whose damage is being repaired.
    pub reason: String,
    /// Why the backup could not be deleted.
    pub warning: Option<String>,
    /// What is reported once the target is deleted.
    pub pending: Option<MigrationResult>,
    pub result: Option<Result<MigrationResult, String>>,
}

/// What a result says.
pub struct OutcomeView {
    pub success: bool,
    pub message: Seq<char>,
    pub new_path: Option<Seq<char>>,
}

impl View for MigrationResult {
    type V = OutcomeView;

    open spec fn view(&self) -> OutcomeView {
        OutcomeView {
            success: self.success,
            message: self.message@,
            new_path: text::view_of(self.new_path),
        }
    }
}

/// What the state of a migration holds.
pub struct MigrationView {
    pub app_name: Seq<char>,
    pub record_type: MigrationRecordType,
    pub source: Seq<char>,
    pub target_parent: Seq<char>,
    pub force_overwrite: bool,
    pub user_confirmed_warning: bool,
    pub stage: MigrationStage,
    pub target: Seq<char>,
    pub has_executable: bool,
    pub source_size: u64,
    pub total_size: u64,
    pub skipped_size: u64,
    pub backup: Seq<char>,
    pub reason: Seq<char>,
    pub warning: Option<Seq<char>>,
    pub pending: Option<OutcomeView>,
    pub result: Option<Result<OutcomeView, Seq<char>>>,
}

impl View for Migration {
    type V = MigrationView;

    open spec fn view(&self) -> MigrationView {
        MigrationView {
            app_name: self.request.app_name@,
            record_type: self.request.record_type,
            source: self.request.source@,
            target_parent: self.request.target_parent@,
            force_overwrite: self.request.force_overwrite,
            user_confirmed_warning: self.request.user_confirmed_warning,
            stage: self.stage,
            target: self.target@,
            has_executable: self.has_executable,
            source_size: self.source_size,
            total_size: self.total_size,
            skipped_size: self.skipped_size,
            backup: self.backup@,
            reason: self.reason@,
            warning: text::view_of(self.warning),
            pending: match self.pending {
                Some(outcome) => Some(outcome@),
                None => None,
            },
            result: match self.result {
                Some(Ok(outcome)) => Some(Ok(outcome@)),
                Some(Err(reason)) => Some(Err(reason@)),
                None => None,
            },
        }
    }
}

/// What a process is known by.
pub struct ProcessView {
    pub name: Seq<char>,
    pub exe: Option<Seq<char>>,
}

impl View for ProcessInfo {
    type V = ProcessView;

    open spec fn view(&self) -> ProcessView {
        ProcessView { name: self.name@, exe: text::view_of(self.exe) }
    }
}

/// What an event says.
pub enum EventView {
    SourceProbed { exists: bool, is_directory: bool },
    TargetParentProbed { exists: bool },
    TargetProbed {
        exists: bool,
        is_directory: bool,
        source_is_directory: bool,
        source_is_junction: bool,
        junction_target: Option<Seq<char>>,
    },
    CancelRead { cancelled: bool },
    ExecutablesSought { found: bool },
    ProcessesListed { processes: Seq<ProcessView> },
    LocksProbed { locked: Seq<Seq<char>>, cancelled: bool },
    PlanBuilt { total_size: u64 },
    SpaceMeasured {
        available: u64,
        available_gb: Seq<char>,
        required_gb: Seq<char>,
    },
    Copied { total: u64, skipped: u64 },
    TargetMeasured { size: u64 },
    BackupChosen { path: Seq<char> },
    RemovalScheduled { scheduled: bool },
    Done,
    Failed { code: Option<i32>, reason: Seq<char> },
}

impl View for MigrationEvent {
    type V = EventView;

    open spec fn view(&self) -> EventView {
        match *self {
            MigrationEvent::SourceProbed { exists, is_directory } => EventView::SourceProbed {
                exists,
                is_directory,
            },
            MigrationEvent::TargetParentProbed { exists } => EventView::TargetParentProbed {
                exists,
            },
            MigrationEvent::TargetProbed {
                exists,
                is_directory,
                source_is_directory,
                source_is_junction,
                junction_target,
            } => EventView::TargetProbed {
                exists,
                is_directory,
                source_is_directory,
                source_is_junction,
                junction_target: text::view_of(junction_target),
            },
            MigrationEvent::CancelRead { cancelled } => EventView::CancelRead { cancelled },
            MigrationEvent::ExecutablesSought { found } => EventView::ExecutablesSought { found },
            MigrationEvent::ProcessesListed { processes } => EventView::ProcessesListed {
                processes: process_views(processes@),
            },
            MigrationEvent::LocksProbed { locked, cancelled } => EventView::LocksProbed {
                locked: text::texts(locked@),
                cancelled,
            },
            MigrationEvent::PlanBuilt { total_size } => EventView::PlanBuilt { total_size },
            MigrationEvent::SpaceMeasured { available, available_gb, required_gb } =>
                EventView::SpaceMeasured {
                available,
                available_gb: available_gb@,
                required_gb: required_gb@,
            },
            MigrationEvent::Copied { total, skipped } => EventView::Copied { total, skipped },
            MigrationEvent::TargetMeasured { size } => EventView::TargetMeasured { size },
            MigrationEvent::BackupChosen { path } => EventView::BackupChosen { path: path@ },
            MigrationEvent::RemovalScheduled { scheduled } => EventView::RemovalScheduled {
                scheduled,
            },
            MigrationEvent::Done => EventView::Done,
            MigrationEvent::Failed { code, reason } => EventView::Failed { code, reason: reason@ },
        }
    }
}

/// The views of a sequence of processes.
pub open spec fn process_views(v: Seq<ProcessInfo>) -> Seq<ProcessView> {
    Seq::new(v.len(), |i: int| v[i]@)
}

/// The names of the processes whose executable's path begins with the text of
/// the source, in order. Both texts are compared in lower case.
pub open spec fn running_in(processes: Seq<ProcessView>, source: Seq<char>) -> Seq<Seq<char>>
    decreases processes.len(),
{
    if processes.len() == 0 {
        seq![]
    } else {
        let before = running_in(processes.drop_last(), source);
        match processes.last().exe {
            Some(exe) if text::has_prefix(text::lowercase(exe), text::lowercase(source)) =>
                before.push(processes.last().name),
            _ => before,
        }
    }
}

/// A path without regard to case and trailing backslashes.
pub open spec fn loop_form(path: Seq<char>) -> Seq<char> {
    text::trimmed_end(text::lowercase(path), text::CharSet::One('\\'))
}

/// Whether two paths begin with the same drive letter.
pub open spec fn same_drive(source: Seq<char>, target: Seq<char>) -> bool {
    source.len() > 0 && target.len() > 0 && text::ascii_upper(source[0]) == text::ascii_upper(
        target[0],
    )
}

/// Lines of a list of locked files.
pub open spec fn locked_lines(locked: Seq<Seq<char>>) -> Seq<Seq<char>> {
    locked.map_values(|f: Seq<char>| "  • "@ + f)
}

/// What the user is told of locked files.
pub open spec fn locked_message(locked: Seq<Seq<char>>, has_executable: bool) -> Seq<char> {
    "目录中有文件正被其他程序占用，无法迁移。\n\n被占用的文件：\n"@ + text::joined(
        locked_lines(locked),
        "\n"@,
    ) + "\n\n"@ + if has_executable {
        "被占用的文件通常是 .dll 等被资源管理器或系统服务加载的组件，\n请注销当前用户或重启系统后重试。"@
    } else {
        "请关闭正在使用这些文件的程序（如浏览器、游戏、编辑器等）后重试。"@
    }
}

/// Whether a copy failed because access was denied.
pub open spec fn is_access_denied(reason: Seq<char>) -> bool {
    text::contains_text(reason, "拒绝访问"@) || text::contains_text(reason, "Access is denied"@)
        || text::contains_text(reason, "os error 5"@) || text::contains_text(
        reason,
        "permission denied"@,
    )
}

/// What the user is told of a failed copy.
pub open spec fn copy_failure_message(reason: Seq<char>) -> Seq<char> {
    if is_access_denied(reason) {
        "复制失败：部分文件被 Windows 系统内核映射，无法在运行时复制。\n\n常见原因：开发工具（Visual Studio、JetBrains 等）的编译器、语言服务进程（MSBuild、VBCSCompiler、ServiceHub 等）仍在后台运行。\n\n解决方案：\n1. 完全退出所有 IDE 实例（包括系统托盘图标）\n2. 打开任务管理器，结束所有 MSBuild、VBCSCompiler、ServiceHub、dotnet 相关进程\n3. 等待 10 秒后重试\n\n原始错误："@
            + reason
    } else {
        reason
    }
}

pub open spec fn saturating_difference(a: u64, b: u64) -> u64 {
    if a >= b {
        (a - b) as u64
    } else {
        0
    }
}

/// The least of two numbers.
pub open spec fn least(a: int, b: int) -> int {
    if a <= b {
        a
    } else {
        b
    }
}

/// How far the target's size may be off: one MiB and the skipped bytes, but no
/// more than five percent of the source.
pub open spec fn size_tolerance(total: u64, skipped: u64) -> int {
    least(skipped + 1024 * 1024, (total / 20) as int)
}

/// Whether the target's size differs from the copied size by no more than the
/// tolerance.
pub open spec fn size_accepted(total: u64, skipped: u64, size: u64) -> bool {
    let expected = saturating_difference(total, skipped) as int;
    -size_tolerance(total, skipped) <= size - expected <= size_tolerance(total, skipped)
}

/// The free space that a source of the given size needs: six fifths of it and
/// 100 MiB.
pub open spec fn needed_space(size: u64) -> u64 {
    least(size + size / 5 + 100 * 1024 * 1024, u64::MAX as int) as u64
}

/// Where a source is moved to: to a directory of its own name below the chosen
/// one. A source without a name cannot be moved.
pub open spec fn target_of(target_parent: Seq<char>, source: Seq<char>) -> Option<Seq<char>> {
    match path::last_name(source) {
        Some(name) => Some(path::joined(target_parent, name)),
        None => None,
    }
}

pub open spec fn success_message(source: Seq<char>, target: Seq<char>) -> Seq<char> {
    "迁移成功！应用已从 "@ + source + " 迁移到 "@ + target
}

pub open spec fn restored_message(reason: Seq<char>, source: Seq<char>) -> Seq<char> {
    reason + "\n\n您的数据已完整恢复到："@ + source
}

pub open spec fn failure(message: Seq<char>, new_path: Option<Seq<char>>) -> OutcomeView {
    OutcomeView { success: false, message, new_path }
}

/// The migration ends with a result.
pub open spec fn ended(m: MigrationView, result: Result<OutcomeView, Seq<char>>) -> MigrationView {
    MigrationView { stage: MigrationStage::Finished, result: Some(result), ..m }
}

/// The migration ends and the user is told why nothing was moved.
pub open spec fn refused(m: MigrationView, message: Seq<char>) -> MigrationView {
    ended(m, Ok(failure(message, None)))
}

/// The migration ends with an error.
pub open spec fn broken_off(m: MigrationView, reason: Seq<char>) -> MigrationView {
    ended(m, Err(reason))
}

/// The target is deleted, then the migration ends and the user is told why.
pub open spec fn undone(
    m: MigrationView,
    message: Seq<char>,
    new_path: Option<Seq<char>>,
) -> MigrationView {
    MigrationView {
        stage: MigrationStage::CleanTarget,
        pending: Some(failure(message, new_path)),
        ..m
    }
}

pub open spec fn at(m: MigrationView, stage: MigrationStage) -> MigrationView {
    MigrationView { stage, ..m }
}

pub open spec fn after_source_probe(
    m: MigrationView,
    exists: bool,
    is_directory: bool,
) -> MigrationView {
    if !exists {
        refused(m, "源路径不存在: "@ + m.source)
    } else if !is_directory {
        refused(m, "源路径必须是一个目录"@)
    } else {
        match danger_rules::danger_of(m.source) {
            Some((DangerLevel::Blocked, message)) => refused(m, message),
            Some((DangerLevel::Warning, message)) if !m.user_confirmed_warning => refused(
                m,
                "REQUIRES_WARNING_CONFIRM:"@ + message,
            ),
            _ => at(m, MigrationStage::ProbeTargetParent),
        }
    }
}

pub open spec fn after_parent_probe(
    m: MigrationView,
    exists: bool,
) -> MigrationView {
    if !exists {
        refused(m, "目标路径不存在: "@ + m.target_parent)
    } else {
        match target_of(m.target_parent, m.source) {
            None => broken_off(m, "无法获取源文件夹名称"@),
            Some(target) => if path::lies_in(target, m.source) {
                refused(
                    m,
                    "目标路径不能是源路径的子目录。\n源路径："@ + m.source + "\n目标路径："@ + target,
                )
            } else {
                MigrationView { target, ..at(m, MigrationStage::ProbeTarget) }
            },
        }
    }
}

pub open spec fn after_target_probe(
    m: MigrationView,
    exists: bool,
    is_directory: bool,
    source_is_directory: bool,
    source_is_junction: bool,
    junction_target: Option<Seq<char>>,
) -> MigrationView {
    if !exists {
        at(m, MigrationStage::CheckCancelBeforeScan)
    } else if !m.force_overwrite {
        if source_is_directory && !source_is_junction && is_directory {
            refused(m, "TARGET_EXISTS_RETRY:"@ + m.target)
        } else {
            refused(m, "TARGET_EXISTS:"@ + m.target)
        }
    } else if source_is_junction && junction_target is Some && loop_form(junction_target->0)
        == loop_form(m.target) {
        refused(m, "JUNCTION_LOOP:"@ + m.target)
    } else {
        at(m, MigrationStage::RemoveStaleTarget)
    }
}

pub open spec fn after_cancel_read(m: MigrationView, cancelled: bool, next: MigrationStage) -> MigrationView {
    if cancelled {
        broken_off(m, "用户取消了迁移"@)
    } else {
        at(m, next)
    }
}

pub open spec fn after_processes(m: MigrationView, processes: Seq<ProcessView>) -> MigrationView {
    let running = running_in(processes, m.source);
    if running.len() > 0 {
        refused(m, "检测到以下程序正在运行，请关闭后重试：\n"@ + text::joined(running, "、"@))
    } else {
        at(m, MigrationStage::ProbeLocks)
    }
}

pub open spec fn after_locks(
    m: MigrationView,
    locked: Seq<Seq<char>>,
    cancelled: bool,
) -> MigrationView {
    if cancelled {
        broken_off(m, "用户取消了迁移"@)
    } else if locked.len() > 0 {
        refused(m, locked_message(locked, m.has_executable))
    } else {
        at(m, MigrationStage::CheckCancelBeforePlan)
    }
}

pub open spec fn after_space(
    m: MigrationView,
    available: u64,
    available_gb: Seq<char>,
    required_gb: Seq<char>,
) -> MigrationView {
    if available < needed_space(m.source_size) {
        refused(
            m,
            "目标磁盘空间不足。需要: "@ + required_gb + " GB，可用: "@ + available_gb + " GB"@,
        )
    } else {
        at(m, MigrationStage::CheckCancelBeforeCopy)
    }
}

pub open spec fn after_failed_move(m: MigrationView, code: Option<i32>, reason: Seq<char>) -> MigrationView {
    if code == Some(17i32) {
        at(m, MigrationStage::CreateTarget)
    } else {
        let number = match code {
            Some(n) => n as int,
            None => 0,
        };
        refused(
            m,
            "移动目录失败（错误码 "@ + text::signed_decimal(number) + "）："@ + reason
                + "\n如目标路径已存在残留目录，请手动删除后重试。"@,
        )
    }
}

pub open spec fn after_failed_move_back(m: MigrationView) -> MigrationView {
    ended(
        m,
        Ok(
            failure(
                "SYMLINK_FAILED_DATA_AT_TARGET:"@ + m.target
                    + "\n创建目录链接失败，自动回滚也未成功。\n\n⚠️ 您的数据完整保存在新位置："@ + m.target
                    + "\n\n请手动执行：mklink /J \""@ + m.source + "\" \""@ + m.target
                    + "\"\n\n链接失败原因："@ + m.reason,
                Some(m.target),
            ),
        ),
    )
}

pub open spec fn after_copy(m: MigrationView, total: u64, skipped: u64) -> MigrationView {
    if m.source_size > 0 && total == 0 {
        undone(
            m,
            "目录遍历失败：源目录 "@ + m.source + " 预扫描有 "@ + text::decimal(m.source_size as nat)
                + " 字节内容，但遍历时未发现任何可复制文件。\n这通常是因为目录权限限制或文件系统特殊属性导致的。\n建议：以管理员身份运行本程序后重试。"@,
            None,
        )
    } else {
        MigrationView {
            total_size: total,
            skipped_size: skipped,
            ..at(m, MigrationStage::MeasureTarget)
        }
    }
}

pub open spec fn after_measure(m: MigrationView, size: u64) -> MigrationView {
    if size_accepted(m.total_size, m.skipped_size, size) {
        at(m, MigrationStage::PreflightLink)
    } else {
        undone(
            m,
            "文件完整性校验失败。预期: "@ + text::decimal(
                saturating_difference(m.total_size, m.skipped_size) as nat,
            ) + " 字节，实际: "@ + text::decimal(size as nat) + " 字节，跳过: "@ + text::decimal(
                m.skipped_size as nat,
            ) + " 字节"@,
            None,
        )
    }
}

pub open spec fn after_failed_preflight(m: MigrationView, reason: Seq<char>) -> MigrationView {
    undone(
        m,
        "创建目录链接预检失败，迁移中止。\n已自动清理目标副本，原数据完好无损。\n\n失败原因："@ + reason
            + "\n\n建议：以管理员身份运行本程序后重试。"@,
        None,
    )
}

pub open spec fn after_failed_backup_choice(m: MigrationView, reason: Seq<char>) -> MigrationView {
    undone(m, "迁移中止：无法准备安全切换。\n\n"@ + reason + "\n\n原数据仍完整保留。"@, None)
}

pub open spec fn after_failed_set_aside(m: MigrationView, reason: Seq<char>) -> MigrationView {
    undone(
        m,
        "迁移中止：原目录仍被其他程序占用，未删除任何源文件。\n已自动清理目标副本，原数据完好无损。\n\n失败路径："@
            + m.source + "\n失败原因："@ + reason
            + "\n\n常见解决方案：\n• 文件被程序占用 → 关闭相关程序（浏览器、游戏、编辑器等）后重试\n• 权限不足 → 以管理员身份运行本程序后重试\n• 只读保护 → 以管理员身份运行后程序会自动解除只读属性"@,
        None,
    )
}

pub open spec fn unverified_message(reason: Seq<char>, restore: Seq<char>) -> Seq<char> {
    "目录链接确认失败，迁移已中止。\n\n"@ + reason + "\n\n"@ + restore
}

pub open spec fn after_restored_unverified(m: MigrationView) -> MigrationView {
    undone(m, unverified_message(m.reason, "原数据已完整恢复到："@ + m.source), Some(m.target))
}

pub open spec fn after_unrestored_unverified(m: MigrationView, reason: Seq<char>) -> MigrationView {
    ended(
        m,
        Ok(
            failure(
                unverified_message(
                    m.reason,
                    "自动恢复未完成。原数据备份仍保留在："@ + m.backup + "；恢复原因："@ + reason,
                ),
                Some(m.target),
            ),
        ),
    )
}

pub open spec fn after_unrestored_unlinked(m: MigrationView, reason: Seq<char>) -> MigrationView {
    ended(
        m,
        Ok(
            failure(
                "SYMLINK_FAILED_DATA_AT_TARGET:"@ + m.target
                    + "\n创建目录链接失败，自动恢复也未完成。\n\n⚠️ 数据副本仍完整保存在："@ + m.target
                    + "\n原目录备份仍保留在："@ + m.backup
                    + "\n\n请勿删除上述任一目录，关闭占用程序后再手动恢复。\n\n链接失败原因："@ + m.reason
                    + "\n恢复失败原因："@ + reason,
                Some(m.target),
            ),
        ),
    )
}

pub open spec fn backup_warning(m: MigrationView, scheduled: bool) -> Seq<char> {
    if scheduled {
        "临时备份目录清理失败（文件被占用），已安排在下次重启时自动删除。\n残留目录："@ + m.backup + "。"@
    } else {
        "临时备份目录清理失败，仍保留在："@ + m.backup + "。\n原因："@ + m.reason
            + "。\n该目录已被扫描过滤，不会被识别为新应用；\n其中被占用的文件通常在注销或重启系统后释放，届时可手动删除此目录。"@
    }
}

pub open spec fn after_record(m: MigrationView) -> MigrationView {
    let message = match m.warning {
        Some(warning) => success_message(m.source, m.target) + "\n\n⚠️ "@ + warning,
        None => success_message(m.source, m.target),
    };
    ended(m, Ok(OutcomeView { success: true, message, new_path: Some(m.target) }))
}

/// Where an event takes a migration. An event that does not answer the stage's
/// question changes nothing.
pub open spec fn next(m: MigrationView, e: EventView) -> MigrationView {
    match m.stage {
        MigrationStage::ProbeSource => match e {
            EventView::SourceProbed { exists, is_directory } =>
                after_source_probe(m, exists, is_directory),
            _ => m,
        },
        MigrationStage::ProbeTargetParent => match e {
            EventView::TargetParentProbed { exists } => after_parent_probe(m, exists),
            _ => m,
        },
        MigrationStage::ProbeTarget => match e {
            EventView::TargetProbed {
                exists,
                is_directory,
                source_is_directory,
                source_is_junction,
                junction_target,
            } => after_target_probe(
                m,
                exists,
                is_directory,
                source_is_directory,
                source_is_junction,
                junction_target,
            ),
            _ => m,
        },
        MigrationStage::RemoveStaleTarget => match e {
            EventView::Done => at(m, MigrationStage::CheckCancelBeforeScan),
            EventView::Failed { code, reason } =>
                broken_off(m, "无法删除残留目录: "@ + m.target + "。请手动删除后重试。原因: "@ + reason),
            _ => m,
        },
        MigrationStage::CheckCancelBeforeScan => match e {
            EventView::CancelRead { cancelled } =>
                after_cancel_read(m, cancelled, MigrationStage::FindExecutables),
            _ => m,
        },
        MigrationStage::FindExecutables => match e {
            EventView::ExecutablesSought { found } => MigrationView {
                has_executable: found,
                ..at(
                    m,
                    if found {
                        MigrationStage::ListProcesses
                    } else {
                        MigrationStage::ProbeLocks
                    },
                )
            },
            _ => m,
        },
        MigrationStage::ListProcesses => match e {
            EventView::ProcessesListed { processes } => after_processes(m, processes),
            _ => m,
        },
        MigrationStage::ProbeLocks => match e {
            EventView::LocksProbed { locked, cancelled } => after_locks(m, locked, cancelled),
            _ => m,
        },
        MigrationStage::CheckCancelBeforePlan => match e {
            EventView::CancelRead { cancelled } =>
                after_cancel_read(m, cancelled, MigrationStage::BuildPlan),
            _ => m,
        },
        MigrationStage::BuildPlan => match e {
            EventView::PlanBuilt { total_size } =>
                MigrationView { source_size: total_size, ..at(m, MigrationStage::MeasureSpace) },
            EventView::Failed { code, reason } => undone(m, reason, None),
            _ => m,
        },
        MigrationStage::MeasureSpace => match e {
            EventView::SpaceMeasured { available, available_gb, required_gb } => after_space(
                m,
                available,
                available_gb,
                required_gb,
            ),
            _ => m,
        },
        MigrationStage::CheckCancelBeforeCopy => match e {
            EventView::CancelRead { cancelled } => after_cancel_read(
                m,
                cancelled,
                if same_drive(m.source, m.target) {
                    MigrationStage::MoveSource
                } else {
                    MigrationStage::CreateTarget
                },
            ),
            _ => m,
        },
        MigrationStage::MoveSource => match e {
            EventView::Done => at(m, MigrationStage::LinkMoved),
            EventView::Failed { code, reason } => after_failed_move(m, code, reason),
            _ => m,
        },
        MigrationStage::LinkMoved => match e {
            EventView::Done => at(m, MigrationStage::Record),
            EventView::Failed { code, reason } =>
                MigrationView { reason, ..at(m, MigrationStage::MoveBack) },
            _ => m,
        },
        MigrationStage::MoveBack => match e {
            EventView::Done => refused(m, restored_message(m.reason, m.source)),
            EventView::Failed { code, reason } => after_failed_move_back(m),
            _ => m,
        },
        MigrationStage::CreateTarget => match e {
            EventView::Done => at(m, MigrationStage::CopyTree),
            EventView::Failed { code, reason } => broken_off(m, "创建目标目录失败: "@ + reason),
            _ => m,
        },
        MigrationStage::CopyTree => match e {
            EventView::Copied { total, skipped } => after_copy(m, total, skipped),
            EventView::Failed { code, reason } => undone(m, copy_failure_message(reason), None),
            _ => m,
        },
        MigrationStage::MeasureTarget => match e {
            EventView::TargetMeasured { size } => after_measure(m, size),
            _ => m,
        },
        MigrationStage::PreflightLink => match e {
            EventView::Done => at(m, MigrationStage::ChooseBackup),
            EventView::Failed { code, reason } => after_failed_preflight(m, reason),
            _ => m,
        },
        MigrationStage::ChooseBackup => match e {
            EventView::BackupChosen { path } =>
                MigrationView { backup: path, ..at(m, MigrationStage::SetSourceAside) },
            EventView::Failed { code, reason } => after_failed_backup_choice(m, reason),
            _ => m,
        },
        MigrationStage::SetSourceAside => match e {
            EventView::Done => at(m, MigrationStage::LinkTarget),
            EventView::Failed { code, reason } => after_failed_set_aside(m, reason),
            _ => m,
        },
        MigrationStage::LinkTarget => match e {
            EventView::Done => at(m, MigrationStage::VerifyLink),
            EventView::Failed { code, reason } =>
                MigrationView { reason, ..at(m, MigrationStage::RestoreUnlinked) },
            _ => m,
        },
        MigrationStage::VerifyLink => match e {
            EventView::Done => at(m, MigrationStage::RemoveBackup),
            EventView::Failed { code, reason } =>
                MigrationView { reason, ..at(m, MigrationStage::RestoreUnverified) },
            _ => m,
        },
        MigrationStage::RestoreUnverified => match e {
            EventView::Done => after_restored_unverified(m),
            EventView::Failed { code, reason } => after_unrestored_unverified(m, reason),
            _ => m,
        },
        MigrationStage::RestoreUnlinked => match e {
            EventView::Done => undone(m, restored_message(m.reason, m.source), None),
            EventView::Failed { code, reason } => after_unrestored_unlinked(m, reason),
            _ => m,
        },
        MigrationStage::RemoveBackup => match e {
            EventView::Done => at(m, MigrationStage::Record),
            EventView::Failed { code, reason } =>
                MigrationView { reason, ..at(m, MigrationStage::ScheduleBackupRemoval) },
            _ => m,
        },
        MigrationStage::ScheduleBackupRemoval => match e {
            EventView::RemovalScheduled { scheduled } => MigrationView {
                warning: Some(backup_warning(m, scheduled)),
                ..at(m, MigrationStage::Record)
            },
            _ => m,
        },
        MigrationStage::Record => match e {
            EventView::Done => after_record(m),
            _ => m,
        },
        MigrationStage::CleanTarget => match e {
            EventView::Done => after_clean(m),
            EventView::Failed { code, reason } => after_clean(m),
            _ => m,
        },
        MigrationStage::Finished => m,
    }
}

/// Whether or not the target could be deleted, the pending result stands.
pub open spec fn after_clean(m: MigrationView) -> MigrationView {
    match m.pending {
        Some(outcome) => ended(m, Ok(outcome)),
        None => m,
    }
}

/// A migration at its beginning.
pub open spec fn started(request: MigrationRequest) -> MigrationView {
    MigrationView {
        app_name: request.app_name@,
        record_type: request.record_type,
        source: request.source@,
        target_parent: request.target_parent@,
        force_overwrite: request.force_overwrite,
        user_confirmed_warning: request.user_confirmed_warning,
        stage: MigrationStage::ProbeSource,
        target: seq![],
        has_executable: false,
        source_size: 0,
        total_size: 0,
        skipped_size: 0,
        backup: seq![],
        reason: seq![],
        warning: None,
        pending: None,
        result: None,
    }
}

/// The names of the processes whose executable's path begins with the text of
/// the source.
pub fn running_processes(processes: &Vec<ProcessInfo>, source: &str) -> (r: Vec<String>)
    ensures
        text::texts(r@) == running_in(process_views(processes@), source@),
{
    let prefix = text::to_lowercase(source);
    let mut r: Vec<String> = Vec::new();
    let mut i: usize = 0;
    let ghost all = process_views(processes@);
    assert(text::texts(r@) =~= running_in(all.take(0), source@));
    while i < processes.len()
        invariant
            i <= processes@.len(),
            all == process_views(processes@),
            text::texts(r@) == running_in(all.take(i as int), source@),
        decreases processes@.len() - i,
    {
        assert(all.take(i + 1).drop_last() =~= all.take(i as int));
        assert(all.take(i + 1).last() == processes@[i as int]@);
        if let Some(exe) = &processes[i].exe {
            let lower = text::to_lowercase(exe.as_str());
            if text::starts_with(lower.as_str(), prefix.as_str()) {
                proof {
                    text::lemma_texts_push(r@, processes@[i as int].name);
                }
                r.push(processes[i].name.clone());
            }
        }
        i = i + 1;
    }
    assert(all.take(i as int) =~= all);
    r
}

/// Whether two paths are the same without regard to case and trailing
/// backslashes.
fn same_place(a: &str, b: &str) -> (r: bool)
    ensures
        r == (loop_form(a@) == loop_form(b@)),
{
    let x = text::to_lowercase(a);
    let y = text::to_lowercase(b);
    let x = text::trim_end(x.as_str(), text::CharSet::One('\\'));
    let y = text::trim_end(y.as_str(), text::CharSet::One('\\'));
    text::same(x.as_str(), y.as_str())
}

/// Whether two paths begin with the same drive letter.
pub fn on_same_drive(source: &str, target: &str) -> (r: bool)
    ensures
        r == same_drive(source@, target@),
{
    let a = text::chars_of(source);
    let b = text::chars_of(target);
    a.len() > 0 && b.len() > 0 && text::upper_char(a[0]) == text::upper_char(b[0])
}

/// What the user is told of locked files.
fn locked_text(locked: &Vec<String>, has_executable: bool) -> (r: String)
    ensures
        r@ == locked_message(text::texts(locked@), has_executable),
{
    let mut lines: Vec<String> = Vec::new();
    let mut i: usize = 0;
    let ghost all = text::texts(locked@);
    assert(text::texts(lines@) =~= locked_lines(all).take(0));
    while i < locked.len()
        invariant
            i <= locked@.len(),
            all == text::texts(locked@),
            text::texts(lines@) == locked_lines(all).take(i as int),
        decreases locked@.len() - i,
    {
        let mut line = "  • ".to_owned();
        line.push_str(locked[i].as_str());
        proof {
            text::lemma_texts_push(lines@, line);
        }
        lines.push(line);
        i = i + 1;
        assert(locked_lines(all).take(i as int) =~= locked_lines(all).take(i - 1).push(
            locked_lines(all)[i - 1],
        ));
    }
    assert(locked_lines(all).take(i as int) =~= locked_lines(all));
    let mut r = "目录中有文件正被其他程序占用，无法迁移。\n\n被占用的文件：\n".to_owned();
    let body = text::join(&lines, "\n");
    r.push_str(body.as_str());
    r.push_str("\n\n");
    if has_executable {
        r.push_str("被占用的文件通常是 .dll 等被资源管理器或系统服务加载的组件，\n请注销当前用户或重启系统后重试。");
    } else {
        r.push_str("请关闭正在使用这些文件的程序（如浏览器、游戏、编辑器等）后重试。");
    }
    r
}

/// What the user is told of a failed copy.
fn copy_failure_text(reason: String) -> (r: String)
    ensures
        r@ == copy_failure_message(reason@),
{
    if text::contains(reason.as_str(), "拒绝访问") || text::contains(
        reason.as_str(),
        "Access is denied",
    ) || text::contains(reason.as_str(), "os error 5") || text::contains(
        reason.as_str(),
        "permission denied",
    ) {
        let mut r = "复制失败：部分文件被 Windows 系统内核映射，无法在运行时复制。\n\n常见原因：开发工具（Visual Studio、JetBrains 等）的编译器、语言服务进程（MSBuild、VBCSCompiler、ServiceHub 等）仍在后台运行。\n\n解决方案：\n1. 完全退出所有 IDE 实例（包括系统托盘图标）\n2. 打开任务管理器，结束所有 MSBuild、VBCSCompiler、ServiceHub、dotnet 相关进程\n3. 等待 10 秒后重试\n\n原始错误：".to_owned();
        r.push_str(reason.as_str());
        r
    } else {
        reason
    }
}

/// Whether the target's size is what was copied, within the tolerance.
pub fn is_size_accepted(total: u64, skipped: u64, size: u64) -> (r: bool)
    ensures
        r == size_accepted(total, skipped, size),
{
    let expected: u64 = total.saturating_sub(skipped);
    let loose: u128 = skipped as u128 + 1024 * 1024;
    let strict: u128 = (total / 20) as u128;
    let tolerance: u128 = if loose <= strict { loose } else { strict };
    let difference: u64 = if size >= expected { size - expected } else { expected - size };
    difference as u128 <= tolerance
}

/// The free space that a source of the given size needs.
pub fn required_space(size: u64) -> (r: u64)
    ensures
        r == needed_space(size),
{
    let needed: u128 = size as u128 + (size / 5) as u128 + 100 * 1024 * 1024;
    if needed <= u64::MAX as u128 {
        needed as u64
    } else {
        u64::MAX
    }
}

/// Begins a migration.
pub fn migrate_app(request: MigrationRequest) -> (r: Migration)
    ensures
        r@ == started(request),
        r.request == request,
{
    let m = Migration {
        request,
        stage: MigrationStage::ProbeSource,
        target: String::new(),
        has_executable: false,
        source_size: 0,
        total_size: 0,
        skipped_size: 0,
        backup: String::new(),
        reason: String::new(),
        warning: None,
        pending: None,
        result: None,
    };
    m
}

impl Migration {
    fn at(self, stage: MigrationStage) -> (r: Migration)
        ensures
            r@ == at(self@, stage),
            r.request == self.request,
    {
        Migration { stage, ..self }
    }

    fn refused(self, message: String) -> (r: Migration)
        ensures
            r@ == refused(self@, message@),
            r.request == self.request,
    {
        let outcome = MigrationResult { success: false, message, new_path: None };
        Migration { stage: MigrationStage::Finished, result: Some(Ok(outcome)), ..self }
    }

    fn broken_off(self, reason: String) -> (r: Migration)
        ensures
            r@ == broken_off(self@, reason@),
            r.request == self.request,
    {
        Migration { stage: MigrationStage::Finished, result: Some(Err(reason)), ..self }
    }

    fn undone(self, message: String, new_path: Option<String>) -> (r: Migration)
        ensures
            r@ == undone(self@, message@, text::view_of(new_path)),
            r.request == self.request,
    {
        let outcome = MigrationResult { success: false, message, new_path };
        Migration { stage: MigrationStage::CleanTarget, pending: Some(outcome), ..self }
    }

    fn failed_at_target(self, message: String) -> (r: Migration)
        ensures
            r@ == ended(self@, Ok(failure(message@, Some(self@.target)))),
            r.request == self.request,
    {
        let new_path = Some(self.target.clone());
        let outcome = MigrationResult { success: false, message, new_path };
        Migration { stage: MigrationStage::Finished, result: Some(Ok(outcome)), ..self }
    }

    fn source_probed(self, exists: bool, is_directory: bool) -> (r: Migration)
        ensures
            r@ == after_source_probe(self@, exists, is_directory),
            r.request == self.request,
    {
        if !exists {
            let mut message = "源路径不存在: ".to_owned();
            message.push_str(self.request.source.as_str());
            return self.refused(message);
        }
        if !is_directory {
            return self.refused("源路径必须是一个目录".to_owned());
        }
        match check_dangerous_path(self.request.source.as_str()) {
            Some((DangerLevel::Blocked, message)) => self.refused(message),
            Some((DangerLevel::Warning, message)) => if !self.request.user_confirmed_warning {
                let mut confirm = "REQUIRES_WARNING_CONFIRM:".to_owned();
                confirm.push_str(message.as_str());
                self.refused(confirm)
            } else {
                self.at(MigrationStage::ProbeTargetParent)
            },
            None => self.at(MigrationStage::ProbeTargetParent),
        }
    }

    fn parent_probed(self, exists: bool) -> (r: Migration)
        ensures
            r@ == after_parent_probe(self@, exists),
            r.request == self.request,
    {
        if !exists {
            let mut message = "目标路径不存在: ".to_owned();
            message.push_str(self.request.target_parent.as_str());
            return self.refused(message);
        }
        let name = match path::last_name_of(self.request.source.as_str()) {
            None => {
                return self.broken_off("无法获取源文件夹名称".to_owned());
            },
            Some(name) => name,
        };
        let target = path::join(self.request.target_parent.as_str(), name.as_str());
        if path::is_in(target.as_str(), self.request.source.as_str()) {
            let mut message = "目标路径不能是源路径的子目录。\n源路径：".to_owned();
            message.push_str(self.request.source.as_str());
            message.push_str("\n目标路径：");
            message.push_str(target.as_str());
            self.refused(message)
        } else {
            Migration { target, stage: MigrationStage::ProbeTarget, ..self }
        }
    }

    fn target_probed(
        self,
        exists: bool,
        is_directory: bool,
        source_is_directory: bool,
        source_is_junction: bool,
        junction_target: Option<String>,
    ) -> (r: Migration)
        ensures
            r@ == after_target_probe(
                self@,
                exists,
                is_directory,
                source_is_directory,
                source_is_junction,
                text::view_of(junction_target),
            ),
            r.request == self.request,
    {
        if !exists {
            return self.at(MigrationStage::CheckCancelBeforeScan);
        }
        if !self.request.force_overwrite {
            let mut message = if source_is_directory && !source_is_junction && is_directory {
                "TARGET_EXISTS_RETRY:".to_owned()
            } else {
                "TARGET_EXISTS:".to_owned()
            };
            message.push_str(self.target.as_str());
            return self.refused(message);
        }
        let is_loop = source_is_junction && match &junction_target {
            Some(place) => same_place(place.as_str(), self.target.as_str()),
            None => false,
        };
        if is_loop {
            let mut message = "JUNCTION_LOOP:".to_owned();
            message.push_str(self.target.as_str());
            self.refused(message)
        } else {
            self.at(MigrationStage::RemoveStaleTarget)
        }
    }

    fn cancel_read(self, cancelled: bool, next: MigrationStage) -> (r: Migration)
        ensures
            r@ == after_cancel_read(self@, cancelled, next),
            r.request == self.request,
    {
        if cancelled {
            self.broken_off("用户取消了迁移".to_owned())
        } else {
            self.at(next)
        }
    }

    fn processes_listed(self, processes: &Vec<ProcessInfo>) -> (r: Migration)
        ensures
            r@ == after_processes(self@, process_views(processes@)),
            r.request == self.request,
    {
        let running = running_processes(processes, self.request.source.as_str());
        assert(running@.len() == text::texts(running@).len());
        if running.len() > 0 {
            let mut message = "检测到以下程序正在运行，请关闭后重试：\n".to_owned();
            let names = text::join(&running, "、");
            message.push_str(names.as_str());
            self.refused(message)
        } else {
            self.at(MigrationStage::ProbeLocks)
        }
    }

    fn locks_probed(self, locked: &Vec<String>, cancelled: bool) -> (r: Migration)
        ensures
            r@ == after_locks(self@, text::texts(locked@), cancelled),
            r.request == self.request,
    {
        if cancelled {
            return self.broken_off("用户取消了迁移".to_owned());
        }
        if locked.len() > 0 {
            let message = locked_text(locked, self.has_executable);
            self.refused(message)
        } else {
            self.at(MigrationStage::CheckCancelBeforePlan)
        }
    }

    fn space_measured(
        self,
        available: u64,
        available_gb: &str,
        required_gb: &str,
    ) -> (r: Migration)
        ensures
            r@ == after_space(self@, available, available_gb@, required_gb@),
            r.request == self.request,
    {
        if available < required_space(self.source_size) {
            let mut message = "目标磁盘空间不足。需要: ".to_owned();
            message.push_str(required_gb);
            message.push_str(" GB，可用: ");
            message.push_str(available_gb);
            message.push_str(" GB");
            self.refused(message)
        } else {
            self.at(MigrationStage::CheckCancelBeforeCopy)
        }
    }

    fn move_failed(self, code: Option<i32>, reason: &str) -> (r: Migration)
        ensures
            r@ == after_failed_move(self@, code, reason@),
            r.request == self.request,
    {
        let number: i32 = match code {
            Some(n) => n,
            None => 0,
        };
        if code.is_some() && number == 17 {
            return self.at(MigrationStage::CreateTarget);
        }
        let mut message = "移动目录失败（错误码 ".to_owned();
        let digits = text::signed_decimal_text(number);
        message.push_str(digits.as_str());
        message.push_str("）：");
        message.push_str(reason);
        message.push_str("\n如目标路径已存在残留目录，请手动删除后重试。");
        self.refused(message)
    }

    fn move_back_failed(self) -> (r: Migration)
        ensures
            r@ == after_failed_move_back(self@),
            r.request == self.request,
    {
        let mut message = "SYMLINK_FAILED_DATA_AT_TARGET:".to_owned();
        message.push_str(self.target.as_str());
        message.push_str("\n创建目录链接失败，自动回滚也未成功。\n\n⚠️ 您的数据完整保存在新位置：");
        message.push_str(self.target.as_str());
        message.push_str("\n\n请手动执行：mklink /J \"");
        message.push_str(self.request.source.as_str());
        message.push_str("\" \"");
        message.push_str(self.target.as_str());
        message.push_str("\"\n\n链接失败原因：");
        message.push_str(self.reason.as_str());
        self.failed_at_target(message)
    }

    fn restored_text(&self) -> (r: String)
        ensures
            r@ == restored_message(self@.reason, self@.source),
    {
        let mut message = self.reason.clone();
        message.push_str("\n\n您的数据已完整恢复到：");
        message.push_str(self.request.source.as_str());
        message
    }

    fn copied(self, total: u64, skipped: u64) -> (r: Migration)
        ensures
            r@ == after_copy(self@, total, skipped),
            r.request == self.request,
    {
        if self.source_size > 0 && total == 0 {
            let mut message = "目录遍历失败：源目录 ".to_owned();
            message.push_str(self.request.source.as_str());
            message.push_str(" 预扫描有 ");
            let digits = text::decimal_text(self.source_size);
            message.push_str(digits.as_str());
            message.push_str(" 字节内容，但遍历时未发现任何可复制文件。\n这通常是因为目录权限限制或文件系统特殊属性导致的。\n建议：以管理员身份运行本程序后重试。");
            self.undone(message, None)
        } else {
            Migration {
                total_size: total,
                skipped_size: skipped,
                stage: MigrationStage::MeasureTarget,
                ..self
            }
        }
    }

    fn target_measured(self, size: u64) -> (r: Migration)
        ensures
            r@ == after_measure(self@, size),
            r.request == self.request,
    {
        if is_size_accepted(self.total_size, self.skipped_size, size) {
            return self.at(MigrationStage::PreflightLink);
        }
        let expected = text::decimal_text(self.total_size.saturating_sub(self.skipped_size));
        let actual = text::decimal_text(size);
        let skipped = text::decimal_text(self.skipped_size);
        let mut message = "文件完整性校验失败。预期: ".to_owned();
        message.push_str(expected.as_str());
        message.push_str(" 字节，实际: ");
        message.push_str(actual.as_str());
        message.push_str(" 字节，跳过: ");
        message.push_str(skipped.as_str());
        message.push_str(" 字节");
        self.undone(message, None)
    }

    fn preflight_failed(self, reason: &str) -> (r: Migration)
        ensures
            r@ == after_failed_preflight(self@, reason@),
            r.request == self.request,
    {
        let mut message = "创建目录链接预检失败，迁移中止。\n已自动清理目标副本，原数据完好无损。\n\n失败原因：".to_owned();
        message.push_str(reason);
        message.push_str("\n\n建议：以管理员身份运行本程序后重试。");
        self.undone(message, None)
    }

    fn backup_choice_failed(self, reason: &str) -> (r: Migration)
        ensures
            r@ == after_failed_backup_choice(self@, reason@),
            r.request == self.request,
    {
        let mut message = "迁移中止：无法准备安全切换。\n\n".to_owned();
        message.push_str(reason);
        message.push_str("\n\n原数据仍完整保留。");
        self.undone(message, None)
    }

    fn set_aside_failed(self, reason: &str) -> (r: Migration)
        ensures
            r@ == after_failed_set_aside(self@, reason@),
            r.request == self.request,
    {
        let mut message = "迁移中止：原目录仍被其他程序占用，未删除任何源文件。\n已自动清理目标副本，原数据完好无损。\n\n失败路径：".to_owned();
        message.push_str(self.request.source.as_str());
        message.push_str("\n失败原因：");
        message.push_str(reason);
        message.push_str("\n\n常见解决方案：\n• 文件被程序占用 → 关闭相关程序（浏览器、游戏、编辑器等）后重试\n• 权限不足 → 以管理员身份运行本程序后重试\n• 只读保护 → 以管理员身份运行后程序会自动解除只读属性");
        self.undone(message, None)
    }

    fn unverified_text(&self, restore: &str) -> (r: String)
        ensures
            r@ == unverified_message(self@.reason, restore@),
    {
        let mut message = "目录链接确认失败，迁移已中止。\n\n".to_owned();
        message.push_str(self.reason.as_str());
        message.push_str("\n\n");
        message.push_str(restore);
        message
    }

    fn restored_unverified(self) -> (r: Migration)
        ensures
            r@ == after_restored_unverified(self@),
            r.request == self.request,
    {
        let mut restore = "原数据已完整恢复到：".to_owned();
        restore.push_str(self.request.source.as_str());
        let message = self.unverified_text(restore.as_str());
        let new_path = Some(self.target.clone());
        self.undone(message, new_path)
    }

    fn unrestored_unverified(self, reason: &str) -> (r: Migration)
        ensures
            r@ == after_unrestored_unverified(self@, reason@),
            r.request == self.request,
    {
        let mut restore = "自动恢复未完成。原数据备份仍保留在：".to_owned();
        restore.push_str(self.backup.as_str());
        restore.push_str("；恢复原因：");
        restore.push_str(reason);
        let message = self.unverified_text(restore.as_str());
        self.failed_at_target(message)
    }

    fn unrestored_unlinked(self, reason: &str) -> (r: Migration)
        ensures
            r@ == after_unrestored_unlinked(self@, reason@),
            r.request == self.request,
    {
        let mut message = "SYMLINK_FAILED_DATA_AT_TARGET:".to_owned();
        message.push_str(self.target.as_str());
        message.push_str("\n创建目录链接失败，自动恢复也未完成。\n\n⚠️ 数据副本仍完整保存在：");
        message.push_str(self.target.as_str());
        message.push_str("\n原目录备份仍保留在：");
        message.push_str(self.backup.as_str());
        message.push_str("\n\n请勿删除上述任一目录，关闭占用程序后再手动恢复。\n\n链接失败原因：");
        message.push_str(self.reason.as_str());
        message.push_str("\n恢复失败原因：");
        message.push_str(reason);
        self.failed_at_target(message)
    }

    fn removal_scheduled(self, scheduled: bool) -> (r: Migration)
        ensures
            r@ == (MigrationView {
                warning: Some(backup_warning(self@, scheduled)),
                ..at(self@, MigrationStage::Record)
            }),
            r.request == self.request,
    {
        let warning = if scheduled {
            let mut w = "临时备份目录清理失败（文件被占用），已安排在下次重启时自动删除。\n残留目录：".to_owned();
            w.push_str(self.backup.as_str());
            w.push_str("。");
            w
        } else {
            let mut w = "临时备份目录清理失败，仍保留在：".to_owned();
            w.push_str(self.backup.as_str());
            w.push_str("。\n原因：");
            w.push_str(self.reason.as_str());
            w.push_str("。\n该目录已被扫描过滤，不会被识别为新应用；\n其中被占用的文件通常在注销或重启系统后释放，届时可手动删除此目录。");
            w
        };
        Migration { warning: Some(warning), stage: MigrationStage::Record, ..self }
    }

    fn recorded(self) -> (r: Migration)
        ensures
            r@ == after_record(self@),
            r.request == self.request,
    {
        let mut message = "迁移成功！应用已从 ".to_owned();
        message.push_str(self.request.source.as_str());
        message.push_str(" 迁移到 ");
        message.push_str(self.target.as_str());
        if let Some(warning) = &self.warning {
            message.push_str("\n\n⚠️ ");
            message.push_str(warning.as_str());
        }
        let new_path = Some(self.target.clone());
        let outcome = MigrationResult { success: true, message, new_path };
        Migration { stage: MigrationStage::Finished, result: Some(Ok(outcome)), ..self }
    }

    fn cleaned(self) -> (r: Migration)
        ensures
            r@ == after_clean(self@),
            r.request == self.request,
    {
        match self.pending {
            Some(outcome) => {
                let copy = MigrationResult {
                    success: outcome.success,
                    message: outcome.message.clone(),
                    new_path: match &outcome.new_path {
                        Some(path) => Some(path.clone()),
                        None => None,
                    },
                };
                Migration {
                    stage: MigrationStage::Finished,
                    pending: Some(outcome),
                    result: Some(Ok(copy)),
                    ..self
                }
            },
            None => Migration { pending: None, ..self },
        }
    }
}

impl Migration {
    /// Takes in how the step went that the stage asks for, and says what is to
    /// be done next.
    pub fn advance(self, event: MigrationEvent) -> (r: Migration)
        ensures
            r@ == next(self@, event@),
            r.request == self.request,
    {
        match self.stage {
            MigrationStage::ProbeSource => match event {
                MigrationEvent::SourceProbed { exists, is_directory } => {
                    self.source_probed(exists, is_directory)
                },
                _ => self,
            },
            MigrationStage::ProbeTargetParent => match event {
                MigrationEvent::TargetParentProbed { exists } => self.parent_probed(exists),
                _ => self,
            },
            MigrationStage::ProbeTarget => match event {
                MigrationEvent::TargetProbed {
                    exists,
                    is_directory,
                    source_is_directory,
                    source_is_junction,
                    junction_target,
                } => {
                    self.target_probed(
                        exists,
                        is_directory,
                        source_is_directory,
                        source_is_junction,
                        junction_target,
                    )
                },
                _ => self,
            },
            MigrationStage::RemoveStaleTarget => match event {
                MigrationEvent::Done => self.at(MigrationStage::CheckCancelBeforeScan),
                MigrationEvent::Failed { code: _, reason } => {
                    let mut message = "无法删除残留目录: ".to_owned();
                    message.push_str(self.target.as_str());
                    message.push_str("。请手动删除后重试。原因: ");
                    message.push_str(reason.as_str());
                    self.broken_off(message)
                },
                _ => self,
            },
            MigrationStage::CheckCancelBeforeScan => match event {
                MigrationEvent::CancelRead { cancelled } => {
                    self.cancel_read(cancelled, MigrationStage::FindExecutables)
                },
                _ => self,
            },
            MigrationStage::FindExecutables => match event {
                MigrationEvent::ExecutablesSought { found } => {
                    let stage = if found {
                        MigrationStage::ListProcesses
                    } else {
                        MigrationStage::ProbeLocks
                    };
                    Migration { has_executable: found, stage, ..self }
                },
                _ => self,
            },
            MigrationStage::ListProcesses => match event {
                MigrationEvent::ProcessesListed { processes } => self.processes_listed(&processes),
                _ => self,
            },
            MigrationStage::ProbeLocks => match event {
                MigrationEvent::LocksProbed { locked, cancelled } => {
                    self.locks_probed(&locked, cancelled)
                },
                _ => self,
            },
            MigrationStage::CheckCancelBeforePlan => match event {
                MigrationEvent::CancelRead { cancelled } => {
                    self.cancel_read(cancelled, MigrationStage::BuildPlan)
                },
                _ => self,
            },
            MigrationStage::BuildPlan => match event {
                MigrationEvent::PlanBuilt { total_size } => Migration {
                    source_size: total_size,
                    stage: MigrationStage::MeasureSpace,
                    ..self
                },
                MigrationEvent::Failed { code: _, reason } => self.undone(reason, None),
                _ => self,
            },
            MigrationStage::MeasureSpace => match event {
                MigrationEvent::SpaceMeasured { available, available_gb, required_gb } => {
                    self.space_measured(available, available_gb.as_str(), required_gb.as_str())
                },
                _ => self,
            },
            MigrationStage::CheckCancelBeforeCopy => match event {
                MigrationEvent::CancelRead { cancelled } => {
                    let next = if on_same_drive(self.request.source.as_str(), self.target.as_str()) {
                        MigrationStage::MoveSource
                    } else {
                        MigrationStage::CreateTarget
                    };
                    self.cancel_read(cancelled, next)
                },
                _ => self,
            },
            MigrationStage::MoveSource => match event {
                MigrationEvent::Done => self.at(MigrationStage::LinkMoved),
                MigrationEvent::Failed { code, reason } => self.move_failed(code, reason.as_str()),
                _ => self,
            },
            MigrationStage::LinkMoved => match event {
                MigrationEvent::Done => self.at(MigrationStage::Record),
                MigrationEvent::Failed { code: _, reason } => Migration {
                    reason,
                    stage: MigrationStage::MoveBack,
                    ..self
                },
                _ => self,
            },
            MigrationStage::MoveBack => match event {
                MigrationEvent::Done => {
                    let message = self.restored_text();
                    self.refused(message)
                },
                MigrationEvent::Failed { code: _, reason: _ } => self.move_back_failed(),
                _ => self,
            },
            MigrationStage::CreateTarget => match event {
                MigrationEvent::Done => self.at(MigrationStage::CopyTree),
                MigrationEvent::Failed { code: _, reason } => {
                    let mut message = "创建目标目录失败: ".to_owned();
                    message.push_str(reason.as_str());
                    self.broken_off(message)
                },
                _ => self,
            },
            MigrationStage::CopyTree => match event {
                MigrationEvent::Copied { total, skipped } => self.copied(total, skipped),
                MigrationEvent::Failed { code: _, reason } => {
                    let message = copy_failure_text(reason);
                    self.undone(message, None)
                },
                _ => self,
            },
            MigrationStage::MeasureTarget => match event {
                MigrationEvent::TargetMeasured { size } => self.target_measured(size),
                _ => self,
            },
            MigrationStage::PreflightLink => match event {
                MigrationEvent::Done => self.at(MigrationStage::ChooseBackup),
                MigrationEvent::Failed { code: _, reason } => {
                    self.preflight_failed(reason.as_str())
                },
                _ => self,
            },
            MigrationStage::ChooseBackup => match event {
                MigrationEvent::BackupChosen { path } => Migration {
                    backup: path,
                    stage: MigrationStage::SetSourceAside,
                    ..self
                },
                MigrationEvent::Failed { code: _, reason } => {
                    self.backup_choice_failed(reason.as_str())
                },
                _ => self,
            },
            MigrationStage::SetSourceAside => match event {
                MigrationEvent::Done => self.at(MigrationStage::LinkTarget),
                MigrationEvent::Failed { code: _, reason } => {
                    self.set_aside_failed(reason.as_str())
                },
                _ => self,
            },
            MigrationStage::LinkTarget => match event {
                MigrationEvent::Done => self.at(MigrationStage::VerifyLink),
                MigrationEvent::Failed { code: _, reason } => Migration {
                    reason,
                    stage: MigrationStage::RestoreUnlinked,
                    ..self
                },
                _ => self,
            },
            MigrationStage::VerifyLink => match event {
                MigrationEvent::Done => self.at(MigrationStage::RemoveBackup),
                MigrationEvent::Failed { code: _, reason } => Migration {
                    reason,
                    stage: MigrationStage::RestoreUnverified,
                    ..self
                },
                _ => self,
            },
            MigrationStage::RestoreUnverified => match event {
                MigrationEvent::Done => self.restored_unverified(),
                MigrationEvent::Failed { code: _, reason } => {
                    self.unrestored_unverified(reason.as_str())
                },
                _ => self,
            },
            MigrationStage::RestoreUnlinked => match event {
                MigrationEvent::Done => {
                    let message = self.restored_text();
                    self.undone(message, None)
                },
                MigrationEvent::Failed { code: _, reason } => {
                    self.unrestored_unlinked(reason.as_str())
                },
                _ => self,
            },
            MigrationStage::RemoveBackup => match event {
                MigrationEvent::Done => self.at(MigrationStage::Record),
                MigrationEvent::Failed { code: _, reason } => Migration {
                    reason,
                    stage: MigrationStage::ScheduleBackupRemoval,
                    ..self
                },
                _ => self,
            },
            MigrationStage::ScheduleBackupRemoval => match event {
                MigrationEvent::RemovalScheduled { scheduled } => self.removal_scheduled(scheduled),
                _ => self,
            },
            MigrationStage::Record => match event {
                MigrationEvent::Done => self.recorded(),
                _ => self,
            },
            MigrationStage::CleanTarget => match event {
                MigrationEvent::Done => self.cleaned(),
                MigrationEvent::Failed { code: _, reason: _ } => self.cleaned(),
                _ => self,
            },
            MigrationStage::Finished => self,
        }
    }

    /// Whether the application is also to be kept in the list of moved
    /// applications when the migration is recorded.
    pub fn registers_app(&self) -> (r: bool)
        ensures
            r == (self.request.record_type == MigrationRecordType::App),
    {
        matches!(self.request.record_type, MigrationRecordType::App)
    }
}

/// Where whole copies of the data are.
pub struct Whereabouts {
    /// The original stands at the source.
    pub source: bool,
    /// The original or an accepted copy stands at the target.
    pub target: bool,
    /// The original stands at the backup.
    pub backup: bool,
    /// A link to the target stands in the source's place.
    pub link: bool,
}

/// What a step does to the data: a rename that succeeded has moved it, a copy
/// counts once its size was accepted, and a directory whose deletion was begun
/// no longer counts, whether or not the deletion succeeded.
pub open spec fn moved(w: Whereabouts, m: MigrationView, e: EventView) -> Whereabouts {
    match m.stage {
        MigrationStage::RemoveStaleTarget | MigrationStage::CleanTarget => if e is Done
            || e is Failed {
            Whereabouts { target: false, ..w }
        } else {
            w
        },
        MigrationStage::MoveSource => if e is Done {
            Whereabouts { source: false, target: true, ..w }
        } else {
            w
        },
        MigrationStage::LinkMoved | MigrationStage::VerifyLink => if e is Done {
            Whereabouts { link: true, ..w }
        } else {
            w
        },
        MigrationStage::MoveBack => if e is Done {
            Whereabouts { source: true, target: false, ..w }
        } else {
            w
        },
        MigrationStage::CopyTree => if e is Copied || e is Failed {
            Whereabouts { target: false, ..w }
        } else {
            w
        },
        MigrationStage::MeasureTarget => match e {
            EventView::TargetMeasured { size } => Whereabouts {
                target: size_accepted(m.total_size, m.skipped_size, size),
                ..w
            },
            _ => w,
        },
        MigrationStage::SetSourceAside => if e is Done {
            Whereabouts { source: false, backup: true, ..w }
        } else {
            w
        },
        MigrationStage::RestoreUnverified | MigrationStage::RestoreUnlinked => if e is Done {
            Whereabouts { source: true, backup: false, ..w }
        } else {
            w
        },
        MigrationStage::RemoveBackup => if e is Done || e is Failed {
            Whereabouts { backup: false, ..w }
        } else {
            w
        },
        _ => w,
    }
}

/// A migration and the whereabouts of its data after a number of events.
pub open spec fn run(m: MigrationView, w: Whereabouts, events: Seq<EventView>) -> (
    MigrationView,
    Whereabouts,
)
    decreases events.len(),
{
    if events.len() == 0 {
        (m, w)
    } else {
        let (n, v) = run(m, w, events.drop_last());
        (next(n, events.last()), moved(v, n, events.last()))
    }
}

/// Before a migration the original stands at the source, and there only.
pub open spec fn untouched() -> Whereabouts {
    Whereabouts { source: true, target: false, backup: false, link: false }
}

/// What each stage relies on.
spec fn stage_relies_on(m: MigrationView, w: Whereabouts) -> bool {
    &&& m.pending is Some ==> !m.pending->0.success
    &&& match m.stage {
        MigrationStage::LinkMoved | MigrationStage::MoveBack => w.target,
        MigrationStage::PreflightLink | MigrationStage::ChooseBackup
        | MigrationStage::SetSourceAside => w.source && w.target,
        MigrationStage::LinkTarget | MigrationStage::VerifyLink
        | MigrationStage::RestoreUnverified | MigrationStage::RestoreUnlinked => w.backup
            && w.target,
        MigrationStage::RemoveBackup => w.backup && w.target && w.link,
        MigrationStage::ScheduleBackupRemoval | MigrationStage::Record => w.target && w.link,
        MigrationStage::CleanTarget => w.source && m.pending is Some,
        MigrationStage::Finished => match m.result {
            Some(Ok(outcome)) => if outcome.success {
                w.target && w.link
            } else {
                w.source || (outcome.new_path is Some && w.target)
            },
            Some(Err(_)) => w.source,
            None => false,
        },
        _ => w.source,
    }
    &&& m.stage != MigrationStage::Finished ==> m.result is None
}

/// The stages up to the copying.
spec fn is_preparing(stage: MigrationStage) -> bool {
    matches!(stage, MigrationStage::ProbeSource | MigrationStage::ProbeTargetParent
        | MigrationStage::ProbeTarget | MigrationStage::RemoveStaleTarget
        | MigrationStage::CheckCancelBeforeScan | MigrationStage::FindExecutables
        | MigrationStage::ListProcesses | MigrationStage::ProbeLocks
        | MigrationStage::CheckCancelBeforePlan)
}

/// The stages of the copying and of the renaming that takes its place.
spec fn is_copying(stage: MigrationStage) -> bool {
    matches!(stage, MigrationStage::BuildPlan | MigrationStage::MeasureSpace
        | MigrationStage::CheckCancelBeforeCopy | MigrationStage::MoveSource
        | MigrationStage::LinkMoved | MigrationStage::MoveBack | MigrationStage::CreateTarget
        | MigrationStage::CopyTree | MigrationStage::MeasureTarget)
}

#[verifier::rlimit(80)]
#[verifier::spinoff_prover]
proof fn lemma_preparing_keeps_relying(m: MigrationView, w: Whereabouts, e: EventView)
    requires
        stage_relies_on(m, w),
        is_preparing(m.stage),
    ensures
        stage_relies_on(next(m, e), moved(w, m, e)),
{
}

#[verifier::rlimit(80)]
#[verifier::spinoff_prover]
proof fn lemma_copying_keeps_relying(m: MigrationView, w: Whereabouts, e: EventView)
    requires
        stage_relies_on(m, w),
        is_copying(m.stage),
    ensures
        stage_relies_on(next(m, e), moved(w, m, e)),
{
}

#[verifier::rlimit(80)]
#[verifier::spinoff_prover]
proof fn lemma_switching_keeps_relying(m: MigrationView, w: Whereabouts, e: EventView)
    requires
        stage_relies_on(m, w),
        !is_preparing(m.stage),
        !is_copying(m.stage),
    ensures
        stage_relies_on(next(m, e), moved(w, m, e)),
{
}

proof fn lemma_stage_keeps_relying(m: MigrationView, w: Whereabouts, e: EventView)
    requires
        stage_relies_on(m, w),
    ensures
        stage_relies_on(next(m, e), moved(w, m, e)),
{
    if is_preparing(m.stage) {
        lemma_preparing_keeps_relying(m, w, e);
    } else if is_copying(m.stage) {
        lemma_copying_keeps_relying(m, w, e);
    } else {
        lemma_switching_keeps_relying(m, w, e);
    }
}

proof fn lemma_run_keeps_relying(request: MigrationRequest, events: Seq<EventView>)
    ensures
        ({
            let (m, w) = run(started(request), untouched(), events);
            stage_relies_on(m, w)
        }),
    decreases events.len(),
{
    if events.len() > 0 {
        lemma_run_keeps_relying(request, events.drop_last());
        let (m, w) = run(started(request), untouched(), events.drop_last());
        lemma_stage_keeps_relying(m, w, events.last());
    }
}

/// However the steps of a migration go, at every moment a whole copy of the
/// data stands at the source, at the target or at the backup.
pub proof fn law_data_survives(request: MigrationRequest, events: Seq<EventView>)
    ensures
        ({
            let (m, w) = run(started(request), untouched(), events);
            w.source || w.target || w.backup
        }),
{
    lemma_run_keeps_relying(request, events);
}

/// A directory is deleted only while the data stands elsewhere: the target only
/// while the original is at the source, the backup only once a link to the
/// whole copy at the target has been confirmed.
pub proof fn law_only_spare_copies_are_deleted(request: MigrationRequest, events: Seq<EventView>)
    ensures
        ({
            let (m, w) = run(started(request), untouched(), events);
            &&& m.stage == MigrationStage::CleanTarget ==> w.source
            &&& m.stage == MigrationStage::RemoveStaleTarget ==> w.source
            &&& m.stage == MigrationStage::RemoveBackup ==> w.target && w.link
        }),
{
    lemma_run_keeps_relying(request, events);
}

/// The result is true to the data: success means that the data is at the
/// target and linked, an error or a failure that names no new path means that
/// the original is back at the source.
pub proof fn law_result_is_true_to_the_data(request: MigrationRequest, events: Seq<EventView>)
    ensures
        ({
            let (m, w) = run(started(request), untouched(), events);
            match m.result {
                Some(Ok(outcome)) => if outcome.success {
                    w.target && w.link
                } else {
                    outcome.new_path is None ==> w.source
                },
                Some(Err(_)) => w.source,
                None => true,
            }
        }),
{
    lemma_run_keeps_relying(request, events);
}

/// No confirmation makes a blocked directory move: the migration never gets
/// past its first question, and what comes of it is a refusal.
pub proof fn law_blocked_source_is_never_moved(request: MigrationRequest, events: Seq<EventView>)
    requires
        danger_rules::danger_of(request.source@) matches Some((level, _)) && level
            == DangerLevel::Blocked,
    ensures
        ({
            let (m, w) = run(started(request), untouched(), events);
            &&& m.stage == MigrationStage::ProbeSource || m.stage == MigrationStage::Finished
            &&& m.source == request.source@
            &&& m.result matches Some(r) ==> (r matches Ok(outcome) && !outcome.success)
        }),
    decreases events.len(),
{
    if events.len() > 0 {
        law_blocked_source_is_never_moved(request, events.drop_last());
    }
}

/// A directory that calls for a warning is not moved unless the user has
/// confirmed it.
pub proof fn law_warning_needs_confirmation(request: MigrationRequest, events: Seq<EventView>)
    requires
        danger_rules::danger_of(request.source@) is Some,
        !request.user_confirmed_warning,
    ensures
        ({
            let (m, w) = run(started(request), untouched(), events);
            &&& m.stage == MigrationStage::ProbeSource || m.stage == MigrationStage::Finished
            &&& m.source == request.source@
            &&& !m.user_confirmed_warning
            &&& m.result matches Some(r) ==> (r matches Ok(outcome) && !outcome.success)
        }),
    decreases events.len(),
{
    if events.len() > 0 {
        law_warning_needs_confirmation(request, events.drop_last());
    }
}

/// An existing target is deleted only where the request allows it.
pub proof fn law_target_is_overwritten_only_on_request(
    request: MigrationRequest,
    events: Seq<EventView>,
)
    requires
        !request.force_overwrite,
    ensures
        ({
            let (m, w) = run(started(request), untouched(), events);
            m.stage != MigrationStage::RemoveStaleTarget && !m.force_overwrite
        }),
    decreases events.len(),
{
    if events.len() > 0 {
        law_target_is_overwritten_only_on_request(request, events.drop_last());
    }
}

/// Where the request has its source moved to, unless that is in the source.
pub open spec fn allowed_target(target_parent: Seq<char>, source: Seq<char>) -> Option<Seq<char>> {
    match target_of(target_parent, source) {
        Some(target) => if path::lies_in(target, source) {
            None
        } else {
            Some(target)
        },
        None => None,
    }
}

/// Whether a state names no place but the given one.
spec fn names_place(m: MigrationView, place: Option<Seq<char>>) -> bool {
    &&& m.stage == MigrationStage::ProbeSource || m.stage == MigrationStage::ProbeTargetParent
        || m.stage == MigrationStage::Finished || place == Some(m.target)
    &&& m.pending matches Some(outcome) ==> !outcome.success && (outcome.new_path is None
        || outcome.new_path == place)
    &&& m.result matches Some(Ok(outcome)) ==> (outcome.success ==> outcome.new_path is Some) && (
    outcome.new_path is None || outcome.new_path == place)
}

#[verifier::rlimit(80)]
#[verifier::spinoff_prover]
proof fn lemma_early_step_keeps_place(m: MigrationView, place: Option<Seq<char>>, e: EventView)
    requires
        names_place(m, place),
        is_checking(m.stage) || m.stage == MigrationStage::CheckCancelBeforePlan || m.stage
            == MigrationStage::BuildPlan || m.stage == MigrationStage::MeasureSpace,
        m.stage != MigrationStage::ProbeTargetParent,
    ensures
        names_place(next(m, e), place),
{
}

#[verifier::rlimit(80)]
#[verifier::spinoff_prover]
proof fn lemma_late_step_keeps_place(m: MigrationView, place: Option<Seq<char>>, e: EventView)
    requires
        names_place(m, place),
        !is_checking(m.stage),
        m.stage != MigrationStage::CheckCancelBeforePlan,
        m.stage != MigrationStage::BuildPlan,
        m.stage != MigrationStage::MeasureSpace,
    ensures
        names_place(next(m, e), place),
{
}

proof fn lemma_naming_step_keeps_place(m: MigrationView, e: EventView)
    requires
        m.stage == MigrationStage::ProbeTargetParent,
        names_place(m, allowed_target(m.target_parent, m.source)),
    ensures
        names_place(next(m, e), allowed_target(m.target_parent, m.source)),
{
}

#[verifier::rlimit(80)]
#[verifier::spinoff_prover]
proof fn lemma_step_keeps_request(m: MigrationView, e: EventView)
    ensures
        next(m, e).source == m.source,
        next(m, e).target_parent == m.target_parent,
{
}

proof fn lemma_run_keeps_place(request: MigrationRequest, events: Seq<EventView>)
    ensures
        ({
            let (m, w) = run(started(request), untouched(), events);
            &&& m.source == request.source@
            &&& m.target_parent == request.target_parent@
            &&& names_place(m, allowed_target(request.target_parent@, request.source@))
        }),
    decreases events.len(),
{
    if events.len() > 0 {
        lemma_run_keeps_place(request, events.drop_last());
        let (m, w) = run(started(request), untouched(), events.drop_last());
        let e = events.last();
        let place = allowed_target(request.target_parent@, request.source@);
        lemma_step_keeps_request(m, e);
        if m.stage == MigrationStage::ProbeTargetParent {
            lemma_naming_step_keeps_place(m, e);
        } else if is_checking(m.stage) || m.stage == MigrationStage::CheckCancelBeforePlan
            || m.stage == MigrationStage::BuildPlan || m.stage == MigrationStage::MeasureSpace {
            lemma_early_step_keeps_place(m, place, e);
        } else {
            lemma_late_step_keeps_place(m, place, e);
        }
    }
}

/// The new path that a result names is the last name of the source below the
/// chosen directory, and does not lie in the source; a success names it.
pub proof fn law_new_path_is_that_of_the_request(request: MigrationRequest, events: Seq<EventView>)
    ensures
        ({
            let (m, w) = run(started(request), untouched(), events);
            m.result matches Some(Ok(outcome)) ==> {
                &&& outcome.success ==> outcome.new_path is Some
                &&& outcome.new_path matches Some(place) ==> target_of(
                    request.target_parent@,
                    request.source@,
                ) == Some(place) && !path::lies_in(place, request.source@)
            }
        }),
{
    lemma_run_keeps_place(request, events);
}

/// However much was skipped, a copy whose size is off by more than five percent
/// of the source is never accepted; nor is one, with nothing skipped, that is off
/// by more than one MiB.
pub proof fn law_tolerance_is_limited(total: u64, skipped: u64, size: u64)
    requires
        size_accepted(total, skipped, size),
    ensures
        saturating_difference(total, skipped) - total / 20 <= size,
        size <= saturating_difference(total, skipped) + total / 20,
        skipped == 0 ==> total - 1024 * 1024 <= size <= total + 1024 * 1024,
{
}

/// The stages in which nothing of the source has been touched yet and programs
/// and files in use are looked for.
pub open spec fn is_checking(stage: MigrationStage) -> bool {
    matches!(stage, MigrationStage::ProbeSource | MigrationStage::ProbeTargetParent
        | MigrationStage::ProbeTarget | MigrationStage::RemoveStaleTarget
        | MigrationStage::CheckCancelBeforeScan | MigrationStage::FindExecutables
        | MigrationStage::ListProcesses | MigrationStage::ProbeLocks)
}

/// Nothing has been moved, and nothing will be reported as moved.
spec fn is_held(m: MigrationView, w: Whereabouts) -> bool {
    &&& is_checking(m.stage) || m.stage == MigrationStage::Finished
    &&& m.result matches Some(Ok(outcome)) ==> !outcome.success
    &&& w.source
}

#[verifier::rlimit(80)]
#[verifier::spinoff_prover]
proof fn lemma_checking_holds(m: MigrationView, w: Whereabouts, e: EventView)
    requires
        is_held(m, w),
        e matches EventView::LocksProbed { locked, cancelled } ==> cancelled || locked.len() > 0,
    ensures
        is_held(next(m, e), moved(w, m, e)),
{
}

/// A directory in which a file is locked whenever locks are probed is not
/// moved: the migration never gets past that question, and does not succeed.
pub proof fn law_locked_source_is_never_moved(request: MigrationRequest, events: Seq<EventView>)
    requires
        forall|i: int|
            0 <= i < events.len() ==> (#[trigger] events[i] matches EventView::LocksProbed {
                locked,
                cancelled,
            } ==> cancelled || locked.len() > 0),
    ensures
        ({
            let (m, w) = run(started(request), untouched(), events);
            &&& is_checking(m.stage) || m.stage == MigrationStage::Finished
            &&& m.result matches Some(Ok(outcome)) ==> !outcome.success
            &&& w.source
        }),
    decreases events.len(),
{
    if events.len() > 0 {
        let front = events.drop_last();
        assert forall|i: int| 0 <= i < front.len() implies (#[trigger] front[i] matches
            EventView::LocksProbed { locked, cancelled } ==> cancelled || locked.len() > 0) by {
            assert(front[i] == events[i]);
        }
        law_locked_source_is_never_moved(request, front);
        let (m, w) = run(started(request), untouched(), front);
        assert(events.last() == events[events.len() - 1]);
        lemma_checking_holds(m, w, events.last());
    }
}

/// An application is not moved while it runs: where executables are found and
/// a process runs from the source whenever processes are listed, the migration
/// never gets past that question, and does not succeed.
pub proof fn law_running_application_is_never_moved(
    request: MigrationRequest,
    events: Seq<EventView>,
)
    requires
        forall|i: int|
            0 <= i < events.len() ==> (#[trigger] events[i] matches EventView::ExecutablesSought {
                found,
            } ==> found) && (events[i] matches EventView::ProcessesListed { processes }
                ==> running_in(processes, request.source@).len() > 0),
    ensures
        ({
            let (m, w) = run(started(request), untouched(), events);
            &&& is_checking(m.stage) && m.stage != MigrationStage::ProbeLocks || m.stage
                == MigrationStage::Finished
            &&& m.result matches Some(Ok(outcome)) ==> !outcome.success
            &&& m.source == request.source@
            &&& w.source
        }),
    decreases events.len(),
{
    if events.len() > 0 {
        let front = events.drop_last();
        assert forall|i: int| 0 <= i < front.len() implies (#[trigger] front[i] matches
            EventView::ExecutablesSought { found } ==> found) && (front[i] matches
            EventView::ProcessesListed { processes } ==> running_in(
            processes,
            request.source@,
        ).len() > 0) by {
            assert(front[i] == events[i]);
        }
        law_running_application_is_never_moved(request, front);
        assert(events.last() == events[events.len() - 1]);
    }
}

/// What the user is shown of the progress.
#[derive(Debug)]
pub struct ProgressNote {
    pub percent: u64,
    pub step: &'static str,
    pub message: &'static str,
    pub copied_size: u64,
    pub total_size: u64,
}

pub open spec fn note(percent: u64, step: &'static str, message: &'static str, size: u64) -> Option<
    ProgressNote,
> {
    Some(ProgressNote { percent, step, message, copied_size: size, total_size: size })
}

impl Migration {
    /// What the user is shown when the stage is reached, if anything.
    pub fn progress(&self) -> (r: Option<ProgressNote>)
        ensures
            r == match self.stage {
                MigrationStage::CheckCancelBeforeScan => note(
                    0,
                    "checking",
                    "正在检测文件占用...",
                    0,
                ),
                MigrationStage::MoveSource => note(
                    50,
                    "copying",
                    "同盘迁移，正在移动目录...",
                    self.source_size,
                ),
                MigrationStage::MeasureTarget => note(
                    90,
                    "verifying",
                    "正在校验文件完整性...",
                    self.source_size,
                ),
                MigrationStage::LinkMoved | MigrationStage::PreflightLink => note(
                    93,
                    "linking",
                    "正在创建目录链接...",
                    self.source_size,
                ),
                MigrationStage::Finished => if self@.result matches Some(Ok(outcome))
                    && outcome.success {
                    note(100, "done", "迁移完成", self.source_size)
                } else {
                    None
                },
                _ => None,
            },
    {
        let (percent, step, message): (u64, &'static str, &'static str) = match self.stage {
            MigrationStage::CheckCancelBeforeScan => {
                return Some(
                    ProgressNote {
                        percent: 0,
                        step: "checking",
                        message: "正在检测文件占用...",
                        copied_size: 0,
                        total_size: 0,
                    },
                );
            },
            MigrationStage::MoveSource => (50, "copying", "同盘迁移，正在移动目录..."),
            MigrationStage::MeasureTarget => (90, "verifying", "正在校验文件完整性..."),
            MigrationStage::LinkMoved => (93, "linking", "正在创建目录链接..."),
            MigrationStage::PreflightLink => (93, "linking", "正在创建目录链接..."),
            MigrationStage::Finished => match &self.result {
                Some(Ok(outcome)) => {
                    if !outcome.success {
                        return None;
                    }
                    (100, "done", "迁移完成")
                },
                _ => {
                    return None;
                },
            },
            _ => {
                return None;
            },
        };
        Some(
            ProgressNote {
                percent,
                step,
                message,
                copied_size: self.source_size,
                total_size: self.source_size,
            },
        )
    }
}

} // verus!
