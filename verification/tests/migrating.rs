use viap::migration::cleanup::{
    cleanup_leftover_backups, is_leftover_backup, DirectoryEntry, RemovalFailure, RemovalFailures,
};
use viap::migration::copy_engine::{
    build_copy_plan, copy_file_with_cancel, copy_flags, directories_to_create,
    is_executable_within_depth, map_copy_error, metadata_failure, partition_files,
    plan_reparse_point, rewrite_link_target, starts_unbuffered, CopyAttempt, CopyDecision,
    CopyPlan, EntryKind, FileCount, LinkTarget, PlannedFile, ReparsePlan, ScanEntry, ScanStep,
    LARGE_FILE_THRESHOLD,
};
use viap::migration::danger_rules::{check_dangerous_path, DangerLevel};
use viap::migration::links::{
    backup_name, create_directory_link, create_migration_backup_path, link_removal_failure,
    preflight_directory_link, probe_name, rename_back_failure, restore_source_from_backup,
    rollback_restore_link, verify_directory_link, LinkProbe, PreflightProbe, RestorePreparation,
    SymlinkAttempt,
};
use viap::migration::occupancy::{
    add_locked, check_directory_file_locks, is_lock_error, listed_path,
};
use viap::migration::restore::{
    restore_directory_with_progress, Restore, RestoreEvent, RestoreStage,
};
use viap::migration::space::{get_available_space, Mount};
use viap::migration::tree_copy::{copy_dir, CopyRun, TreeCopy, TreeEvent, TreeStage};
use viap::migration::{
    is_size_accepted, migrate_app, on_same_drive, required_space, running_processes, Migration,
    MigrationEvent, MigrationRequest, MigrationStage, ProcessInfo,
};
use viap::models::MigrationRecordType;

fn told(names: &[&str]) -> Vec<String> {
    names.iter().map(|name| name.to_string()).collect()
}

fn request_to(target_parent: &str, source: &str) -> MigrationRequest {
    MigrationRequest {
        app_name: "App".to_string(),
        source: source.to_string(),
        target_parent: target_parent.to_string(),
        record_type: MigrationRecordType::App,
        force_overwrite: false,
        user_confirmed_warning: false,
    }
}

fn request(source: &str, force_overwrite: bool, user_confirmed_warning: bool) -> MigrationRequest {
    MigrationRequest { force_overwrite, user_confirmed_warning, ..request_to("E:\\Apps", source) }
}

fn failed(reason: &str) -> MigrationEvent {
    MigrationEvent::Failed { code: None, reason: reason.to_string() }
}

fn probed_source() -> MigrationEvent {
    MigrationEvent::SourceProbed { exists: true, is_directory: true }
}

fn probed_parent() -> MigrationEvent {
    MigrationEvent::TargetParentProbed { exists: true }
}

fn no_target() -> MigrationEvent {
    MigrationEvent::TargetProbed {
        exists: false,
        is_directory: false,
        source_is_directory: true,
        source_is_junction: false,
        junction_target: None,
    }
}

fn before_copy(target_parent: &str) -> Migration {
    let mut m = migrate_app(request_to(target_parent, "D:\\Apps\\Foo"));
    for event in [
        probed_source(),
        probed_parent(),
        no_target(),
        MigrationEvent::CancelRead { cancelled: false },
        MigrationEvent::ExecutablesSought { found: true },
        MigrationEvent::ProcessesListed { processes: Vec::new() },
        MigrationEvent::LocksProbed { locked: Vec::new(), cancelled: false },
        MigrationEvent::CancelRead { cancelled: false },
        MigrationEvent::PlanBuilt { total_size: 100 },
        MigrationEvent::SpaceMeasured {
            available: required_space(100),
            available_gb: "0.00".to_string(),
            required_gb: "0.00".to_string(),
        },
        MigrationEvent::CancelRead { cancelled: false },
    ] {
        m = m.advance(event);
    }
    m
}

fn message_of(m: &Migration) -> String {
    match &m.result {
        Some(Ok(result)) => {
            assert!(!result.success);
            result.message.clone()
        }
        Some(Err(reason)) => reason.clone(),
        None => panic!("not finished"),
    }
}

#[test]
fn migration_to_another_drive_copies_and_links() {
    let mut m = before_copy("E:\\Apps");
    assert_eq!(m.stage, MigrationStage::CreateTarget);
    m = m.advance(MigrationEvent::Done);
    m = m.advance(MigrationEvent::Copied { total: 100, skipped: 0 });
    m = m.advance(MigrationEvent::TargetMeasured { size: 100 });
    assert_eq!(m.stage, MigrationStage::PreflightLink);
    m = m.advance(MigrationEvent::Done);
    m = m.advance(MigrationEvent::BackupChosen { path: "D:\\Apps\\.b".to_string() });
    m = m.advance(MigrationEvent::Done);
    assert_eq!(m.stage, MigrationStage::LinkTarget);
    m = m.advance(MigrationEvent::Done);
    m = m.advance(MigrationEvent::Done);
    assert_eq!(m.stage, MigrationStage::RemoveBackup);
    m = m.advance(MigrationEvent::Done);
    assert_eq!(m.stage, MigrationStage::Record);
    assert!(m.registers_app());
    m = m.advance(MigrationEvent::Done);
    match m.result {
        Some(Ok(result)) => {
            assert!(result.success);
            assert_eq!(result.message, "迁移成功！应用已从 D:\\Apps\\Foo 迁移到 E:\\Apps\\Foo");
            assert_eq!(result.new_path.as_deref(), Some("E:\\Apps\\Foo"));
        }
        other => panic!("{:?}", other),
    }
}

#[test]
fn migration_within_a_drive_moves_and_links() {
    let mut m = before_copy("D:\\New");
    assert_eq!(m.stage, MigrationStage::MoveSource);
    m = m.advance(MigrationEvent::Done);
    m = m.advance(failed("no link"));
    assert_eq!(m.stage, MigrationStage::MoveBack);
    m = m.advance(MigrationEvent::Done);
    assert_eq!(message_of(&m), "no link\n\n您的数据已完整恢复到：D:\\Apps\\Foo");
    let mut m = before_copy("D:\\New");
    m = m.advance(MigrationEvent::Failed { code: Some(17), reason: "x".to_string() });
    assert_eq!(m.stage, MigrationStage::CreateTarget);
    let mut m = before_copy("D:\\New");
    m = m.advance(MigrationEvent::Failed { code: Some(5), reason: "x".to_string() });
    assert_eq!(
        message_of(&m),
        "移动目录失败（错误码 5）：x\n如目标路径已存在残留目录，请手动删除后重试。"
    );
}

#[test]
fn data_survive_a_failed_link() {
    let mut m = before_copy("E:\\Apps");
    for event in [
        MigrationEvent::Done,
        MigrationEvent::Copied { total: 100, skipped: 0 },
        MigrationEvent::TargetMeasured { size: 100 },
        MigrationEvent::Done,
        MigrationEvent::BackupChosen { path: "D:\\Apps\\.b".to_string() },
        MigrationEvent::Done,
        failed("no link"),
    ] {
        m = m.advance(event);
    }
    assert_eq!(m.stage, MigrationStage::RestoreUnlinked);
    m = m.advance(MigrationEvent::Done);
    assert_eq!(m.stage, MigrationStage::CleanTarget);
    m = m.advance(MigrationEvent::Done);
    assert_eq!(message_of(&m), "no link\n\n您的数据已完整恢复到：D:\\Apps\\Foo");
}

#[test]
fn kept_backups_are_warned_of() {
    let mut m = before_copy("E:\\Apps");
    for event in [
        MigrationEvent::Done,
        MigrationEvent::Copied { total: 100, skipped: 0 },
        MigrationEvent::TargetMeasured { size: 100 },
        MigrationEvent::Done,
        MigrationEvent::BackupChosen { path: "D:\\Apps\\.b".to_string() },
        MigrationEvent::Done,
        MigrationEvent::Done,
        MigrationEvent::Done,
        failed("in use"),
        MigrationEvent::RemovalScheduled { scheduled: true },
        MigrationEvent::Done,
    ] {
        m = m.advance(event);
    }
    match m.result {
        Some(Ok(result)) => {
            assert!(result.success);
            assert!(result.message.contains("已安排在下次重启时自动删除"));
            assert!(result.message.contains("D:\\Apps\\.b"));
        }
        other => panic!("{:?}", other),
    }
}

#[test]
fn incomplete_copies_are_deleted() {
    let mut m = before_copy("E:\\Apps");
    m = m.advance(MigrationEvent::Done);
    m = m.advance(MigrationEvent::Copied { total: 0, skipped: 0 });
    assert_eq!(m.stage, MigrationStage::CleanTarget);
    let mut m = before_copy("E:\\Apps");
    m = m.advance(MigrationEvent::Done);
    m = m.advance(MigrationEvent::Copied { total: 5_000_000, skipped: 0 });
    m = m.advance(MigrationEvent::TargetMeasured { size: 0 });
    assert_eq!(m.stage, MigrationStage::CleanTarget);
    m = m.advance(MigrationEvent::Done);
    assert_eq!(
        message_of(&m),
        "文件完整性校验失败。预期: 5000000 字节，实际: 0 字节，跳过: 0 字节"
    );
    let mut m = before_copy("E:\\Apps");
    m = m.advance(MigrationEvent::Done);
    m = m.advance(failed("os error 5"));
    m = m.advance(MigrationEvent::Done);
    assert!(message_of(&m).starts_with("复制失败："));
}

#[test]
fn blocked_sources_are_never_moved() {
    let m = migrate_app(request("C:\\Windows\\Fonts", true, true)).advance(probed_source());
    assert_eq!(m.stage, MigrationStage::Finished);
    assert!(!message_of(&m).starts_with("REQUIRES_WARNING_CONFIRM:"));
}

#[test]
fn warnings_need_confirmation() {
    let m = migrate_app(request("D:\\MySQL", false, false)).advance(probed_source());
    assert!(message_of(&m).starts_with("REQUIRES_WARNING_CONFIRM:"));
    let m = migrate_app(request("D:\\MySQL", false, true)).advance(probed_source());
    assert_eq!(m.stage, MigrationStage::ProbeTargetParent);
}

fn target_found(junction_target: Option<&str>) -> MigrationEvent {
    MigrationEvent::TargetProbed {
        exists: true,
        is_directory: true,
        source_is_directory: true,
        source_is_junction: junction_target.is_some(),
        junction_target: junction_target.map(|s| s.to_string()),
    }
}

#[test]
fn targets_are_overwritten_only_on_request() {
    let start = |force| {
        migrate_app(request("D:\\Apps\\Foo", force, false))
            .advance(probed_source())
            .advance(probed_parent())
    };
    let m = start(false).advance(target_found(None));
    assert_eq!(message_of(&m), "TARGET_EXISTS_RETRY:E:\\Apps\\Foo");
    let m = start(false).advance(target_found(Some("F:\\x")));
    assert_eq!(message_of(&m), "TARGET_EXISTS:E:\\Apps\\Foo");
    let m = start(true).advance(target_found(Some("e:\\apps\\FOO\\")));
    assert_eq!(message_of(&m), "JUNCTION_LOOP:E:\\Apps\\Foo");
    let m = start(true).advance(target_found(None));
    assert_eq!(m.stage, MigrationStage::RemoveStaleTarget);
}

#[test]
fn migrations_are_refused_with_a_reason() {
    let start = || migrate_app(request("D:\\Apps\\Foo", false, false));
    let m = start().advance(MigrationEvent::SourceProbed { exists: false, is_directory: false });
    assert_eq!(message_of(&m), "源路径不存在: D:\\Apps\\Foo");
    let m = start().advance(MigrationEvent::SourceProbed { exists: true, is_directory: false });
    assert_eq!(message_of(&m), "源路径必须是一个目录");
    let m = start()
        .advance(probed_source())
        .advance(MigrationEvent::TargetParentProbed { exists: false });
    assert_eq!(message_of(&m), "目标路径不存在: E:\\Apps");
    let m = migrate_app(request_to("d:/Apps/Foo", "D:\\Apps\\Foo"))
        .advance(probed_source())
        .advance(probed_parent());
    assert_eq!(
        message_of(&m),
        "目标路径不能是源路径的子目录。\n源路径：D:\\Apps\\Foo\n目标路径：d:/Apps/Foo\\Foo"
    );
    let m = migrate_app(request_to("E:\\Apps", "D:\\")).advance(probed_source()).advance(probed_parent());
    assert_eq!(message_of(&m), "无法获取源文件夹名称");
    let m = migrate_app(request_to("D:\\Apps\\Foo", "D:\\Apps\\Foo"))
        .advance(probed_source())
        .advance(probed_parent());
    assert_eq!(
        message_of(&m),
        "目标路径不能是源路径的子目录。\n源路径：D:\\Apps\\Foo\n目标路径：D:\\Apps\\Foo\\Foo"
    );
    let m = start()
        .advance(probed_source())
        .advance(probed_parent())
        .advance(no_target())
        .advance(MigrationEvent::CancelRead { cancelled: true });
    assert_eq!(message_of(&m), "用户取消了迁移");
    let m = start()
        .advance(probed_source())
        .advance(probed_parent())
        .advance(no_target())
        .advance(MigrationEvent::CancelRead { cancelled: false })
        .advance(MigrationEvent::ExecutablesSought { found: true })
        .advance(MigrationEvent::ProcessesListed {
            processes: vec![process("foo.exe", "d:\\APPS\\foo\\foo.exe"), process("x", "C:\\x")],
        });
    assert_eq!(message_of(&m), "检测到以下程序正在运行，请关闭后重试：\nfoo.exe");
}

fn process(name: &str, exe: &str) -> ProcessInfo {
    ProcessInfo { name: name.to_string(), exe: Some(exe.to_string()) }
}

#[test]
fn processes_are_found_by_their_executables() {
    let processes = vec![
        process("a", "D:\\Apps\\Foo\\a.exe"),
        ProcessInfo { name: "b".to_string(), exe: None },
        process("c", "D:\\Apps\\Bar\\c.exe"),
    ];
    assert_eq!(running_processes(&processes, "d:\\apps\\foo"), told(&["a"]));
}

#[test]
fn drives_and_sizes_are_compared() {
    assert!(on_same_drive("d:\\a", "D:\\b"));
    assert!(!on_same_drive("D:\\a", "E:\\b"));
    assert!(!on_same_drive("", "E:\\b"));
    assert!(is_size_accepted(10, 0, 10));
    assert!(!is_size_accepted(10, 0, 11));
    assert!(is_size_accepted(1000, 0, 1050));
    assert!(!is_size_accepted(1000, 0, 1051));
    assert!(is_size_accepted(100_000_000, 0, 100_000_000 + 1024 * 1024));
    assert!(!is_size_accepted(100_000_000, 0, 100_000_001 + 1024 * 1024));
    assert!(is_size_accepted(3_000_000, 1_000_000, 1_850_000));
    assert!(!is_size_accepted(3_000_000, 1_000_000, 1_849_999));
    assert!(is_size_accepted(0, 0, 0));
    assert_eq!(required_space(1000), 1200 + 100 * 1024 * 1024);
    assert_eq!(required_space(0), 100 * 1024 * 1024);
    assert_eq!(required_space(u64::MAX), u64::MAX);
}

#[test]
fn wrong_answers_change_nothing() {
    let m = migrate_app(request("D:\\a", false, false)).advance(MigrationEvent::Done);
    assert_eq!(m.stage, MigrationStage::ProbeSource);
    assert!(m.result.is_none());
}

fn restore_at_copy() -> Restore {
    restore_directory_with_progress("D:\\o".to_string(), "E:\\t".to_string())
        .advance(RestoreEvent::PlanBuilt { total_size: 100 })
        .advance(enough_space())
        .advance(RestoreEvent::OriginalProbed { is_junction: true, exists: true })
        .advance(RestoreEvent::Done)
        .advance(RestoreEvent::Done)
}

fn enough_space() -> RestoreEvent {
    RestoreEvent::SpaceChecked {
        available: 100,
        available_text: "v".to_string(),
        required_text: "r".to_string(),
    }
}

fn measured(size: u64) -> RestoreEvent {
    RestoreEvent::OriginalMeasured {
        size,
        expected_text: "e".to_string(),
        actual_text: "a".to_string(),
    }
}

#[test]
fn restoring_copies_back_and_deletes_the_target() {
    let mut r = restore_at_copy();
    assert_eq!(r.stage, RestoreStage::CopyBack);
    r = r.advance(RestoreEvent::Done);
    r = r.advance(measured(99));
    assert_eq!(r.stage, RestoreStage::RemoveTarget);
    r = r.advance(RestoreEvent::Failed { reason: "busy".to_string() });
    r = r.advance(RestoreEvent::Done);
    match r.result {
        Some(Ok(result)) => {
            assert_eq!(result.restored_size, 99);
            assert_eq!(
                result.cleanup_warning.as_deref(),
                Some("恢复已完成，但目标副本清理失败：busy")
            );
        }
        other => panic!("{:?}", other),
    }
}

#[test]
fn data_survive_a_failed_restore() {
    let mut r = restore_at_copy();
    r = r.advance(RestoreEvent::Done);
    r = r.advance(measured(102 + 1024 * 1024));
    assert_eq!(r.stage, RestoreStage::ProbePartial);
    r = r.advance(RestoreEvent::OriginalProbed { is_junction: false, exists: true });
    assert_eq!(r.stage, RestoreStage::RemovePartial);
    r = r.advance(RestoreEvent::Done);
    r = r.advance(RestoreEvent::OriginalProbed { is_junction: false, exists: false });
    assert_eq!(r.stage, RestoreStage::Relink);
    r = r.advance(RestoreEvent::Done);
    match r.result {
        Some(Err(reason)) => assert_eq!(
            reason,
            "恢复完整性校验失败：预期 e，实际 a。\n已自动恢复目录链接，数据仍完整保存在：E:\\t"
        ),
        other => panic!("{:?}", other),
    }
    let r = restore_directory_with_progress("D:\\o".to_string(), "E:\\t".to_string())
        .advance(RestoreEvent::PlanBuilt { total_size: 100 })
        .advance(enough_space())
        .advance(RestoreEvent::OriginalProbed { is_junction: false, exists: true });
    match r.result {
        Some(Err(reason)) => {
            assert_eq!(reason, "原路径 D:\\o 已存在且不是目录链接，拒绝恢复以保护数据。")
        }
        other => panic!("{:?}", other),
    }
}

#[test]
fn restores_need_a_parent_and_space() {
    let at = |original: &str| {
        restore_directory_with_progress(original.to_string(), "E:\\t".to_string())
            .advance(RestoreEvent::PlanBuilt { total_size: 101 })
            .advance(enough_space())
    };
    match at("D:\\o").result {
        Some(Err(reason)) => assert_eq!(reason, "原磁盘空间不足。需要: r，可用: v"),
        other => panic!("{:?}", other),
    }
    match at("D:\\").result {
        Some(Err(reason)) => assert_eq!(reason, "无法获取原路径的父目录"),
        other => panic!("{:?}", other),
    }
}

#[test]
fn new_path_is_that_of_the_request() {
    for (parent, source, target) in [
        ("E:\\Apps", "D:\\Apps\\Foo", "E:\\Apps\\Foo"),
        ("E:\\Apps\\", "D:/Apps/Foo/", "E:\\Apps\\Foo"),
        ("E:\\", "D:\\Foo", "E:\\Foo"),
    ] {
        let m = migrate_app(request_to(parent, source))
            .advance(probed_source())
            .advance(probed_parent());
        assert_eq!(m.stage, MigrationStage::ProbeTarget);
        assert_eq!(m.target, target);
    }
}

#[test]
fn a_full_disk_refuses_the_migration() {
    let mut m = migrate_app(request("D:\\Apps\\Foo", false, false));
    m.stage = MigrationStage::MeasureSpace;
    m.source_size = 1000;
    let m = m.advance(MigrationEvent::SpaceMeasured {
        available: required_space(1000) - 1,
        available_gb: "0.09".to_string(),
        required_gb: "0.10".to_string(),
    });
    assert_eq!(message_of(&m), "目标磁盘空间不足。需要: 0.10 GB，可用: 0.09 GB");
}

#[test]
fn rollback_shows_what_failed() {
    assert_eq!(
        rollback_restore_link("E:\\t", Some("a\"b".to_string()), None),
        "自动回滚未完全成功。目标数据仍完整保存在：E:\\t；cleanup=Some(\"清理原路径半成品失败: a\\\"b\")；link=None"
    );
}

#[test]
fn dangerous_paths_are_told_apart() {
    assert_eq!(check_dangerous_path("c:/windows/fonts").unwrap().0, DangerLevel::Blocked);
    assert_eq!(check_dangerous_path("C:\\Users").unwrap().0, DangerLevel::Blocked);
    assert_eq!(check_dangerous_path("C:\\Program Files").unwrap().0, DangerLevel::Blocked);
    assert_eq!(check_dangerous_path("c:/program files (x86)").unwrap().0, DangerLevel::Blocked);
    for one in ["D:\\MySQL\\data", "d:/mysql/DATA", "D:/mYsQl\\Data"] {
        assert_eq!(check_dangerous_path(one).unwrap().0, DangerLevel::Warning);
    }
    assert_eq!(check_dangerous_path("C:\\WINDOWS/more").unwrap().0, DangerLevel::Blocked);
    assert!(check_dangerous_path("C:\\Program Files\\Foo").is_none());
    assert!(check_dangerous_path("C:\\Users\\me\\x").is_none());
    assert_eq!(check_dangerous_path("D:\\Redis").unwrap().0, DangerLevel::Warning);
    assert_eq!(
        check_dangerous_path("C:\\Windows\\Redis").unwrap().0,
        DangerLevel::Blocked
    );
    assert!(check_dangerous_path("D:\\Games").is_none());
}

fn entry(path: &str, kind: EntryKind) -> ScanStep {
    ScanStep::Entry(ScanEntry { path: format!("D:\\s\\{}", path), kind })
}

fn file_entry(path: &str, size: u64) -> ScanStep {
    entry(path, EntryKind::File(Ok(size)))
}

fn link_to(raw: &str) -> EntryKind {
    EntryKind::Link(LinkTarget::Directory { raw: Some(raw.to_string()) })
}

fn plan_of(steps: Vec<ScanStep>) -> CopyPlan {
    build_copy_plan(steps, "D:\\s", "E:\\t").unwrap()
}

#[test]
fn plans_count_files_directories_and_links() {
    let plan = plan_of(vec![
        entry("", EntryKind::Directory),
        file_entry("a.EXE", 7),
        entry("d", EntryKind::Directory),
        file_entry("d\\b.txt", 5),
        entry("l", link_to("F:\\x")),
        entry("f", EntryKind::Link(LinkTarget::File { size: 3 })),
        entry("x", EntryKind::Link(LinkTarget::Dangling)),
        entry("u", EntryKind::Link(LinkTarget::Directory { raw: None })),
        entry("y", EntryKind::Other),
    ]);
    assert_eq!((plan.source_root.as_str(), plan.target_root.as_str()), ("D:\\s", "E:\\t"));
    assert_eq!(plan.total_size, 15);
    assert_eq!(plan.file_list.len(), 3);
    let second = &plan.file_list[1];
    assert_eq!((second.relative_path.as_str(), second.parent.as_str()), ("d\\b.txt", "d"));
    assert_eq!(plan.file_list[0].parent, "");
    assert_eq!(plan.dir_list, told(&["d"]));
    assert_eq!(plan.link_list.len(), 1);
    assert_eq!(plan.link_list[0].target, "F:\\x");
    assert!(plan.has_executable);
    assert_eq!(directories_to_create(&plan), told(&["d"]));
}

#[test]
fn plans_break_off_with_a_reason() {
    let reason = |steps| match build_copy_plan(steps, "D:\\s", "E:\\t") {
        Err(reason) => reason,
        Ok(_) => panic!("broken off"),
    };
    assert_eq!(reason(vec![ScanStep::Cancelled]), "用户取消了迁移");
    assert_eq!(
        reason(vec![ScanStep::Unreadable { reason: "x".to_string() }]),
        "目录遍历失败 D:\\s: x"
    );
    assert_eq!(
        reason(vec![entry("a", EntryKind::File(Err("x".to_string())))]),
        "读取文件元数据失败 D:\\s\\a: x"
    );
    let outside = ScanEntry { path: "D:\\s2\\a".to_string(), kind: EntryKind::Directory };
    assert_eq!(reason(vec![ScanStep::Entry(outside)]), "路径解析失败: prefix not found");
}

#[test]
fn reparse_points_are_planned() {
    let planned = |link| plan_reparse_point(link, "D:\\s\\p", "D:\\s", "E:\\t");
    match planned(LinkTarget::Directory { raw: Some("d:/s/d".to_string()) }) {
        Some(ReparsePlan::DirectoryLink { target }) => assert_eq!(target, "E:\\t\\d"),
        _ => panic!("a directory link"),
    }
    assert!(matches!(
        planned(LinkTarget::File { size: 3 }),
        Some(ReparsePlan::FileContent { size: 3 })
    ));
    assert!(planned(LinkTarget::Dangling).is_none());
    assert!(planned(LinkTarget::Directory { raw: None }).is_none());
    assert!(is_executable_within_depth("d\\a.ExE", 2));
    assert!(!is_executable_within_depth("d\\d\\a.exe", 2));
    assert!(!is_executable_within_depth("a", 2));
    assert!(!is_executable_within_depth(".exe", 2));
    assert!(!is_executable_within_depth("a.exe.txt", 2));
}

#[test]
fn link_targets_are_rewritten_by_components() {
    let rewrite = |raw| rewrite_link_target("D:\\s\\p", raw, "D:\\s", "E:\\t");
    assert_eq!(rewrite("D:\\s"), "E:\\t\\");
    assert_eq!(rewrite("D:\\s\\a//b\\"), "E:\\t\\a//b");
    assert_eq!(rewrite("..\\q"), "E:\\t\\p\\..\\q");
    assert_eq!(rewrite("D:\\s\\a\\b"), "E:\\t\\a\\b");
    assert_eq!(rewrite("D:\\s2\\a"), "D:\\s2\\a");
    assert_eq!(rewrite("q"), "E:\\t\\p\\q");
    assert_eq!(rewrite("\\s\\a"), "E:\\t\\a");
    assert_eq!(rewrite("\\x"), "D:\\x");
    assert_eq!(rewrite("\\\\server\\share\\x"), "\\\\server\\share\\x");
    assert_eq!(rewrite_link_target("D:\\s", "D:\\s\\a", "D:\\s", "E:\\"), "E:\\a");
}

/// The directory tree: files, an empty directory, a link into the tree, one out
/// of it, and a file far below the root.
#[test]
fn copies_tree_and_recreates_nested_directory_links() {
    let root = "C:\\Temp\\viap-engine";
    let source = format!("{}\\source", root);
    let target = format!("{}\\target", root);
    let external = format!("{}\\external-data", root);
    let deep = "segment-".to_string() + &"x".repeat(60);
    let long = format!("deep\\{}\\{}\\{}\\{}\\{}\\payload.bin", deep, deep, deep, deep, deep);
    let at = |path: &str, kind| {
        ScanStep::Entry(ScanEntry { path: format!("{}\\{}", source, path), kind })
    };
    let plan = build_copy_plan(
        vec![
            at("", EntryKind::Directory),
            at("plain.bin", EntryKind::File(Ok(5))),
            at("inner", EntryKind::Directory),
            at("inner\\keep", EntryKind::Directory),
            at("inner\\keep\\a.bin", EntryKind::File(Ok(3))),
            at("empty-dir", EntryKind::Directory),
            at("outer-link", link_to(&external)),
            at("inner-link", link_to(&format!("{}\\inner", source))),
            at(&long, EntryKind::File(Ok(9))),
        ],
        &source,
        &target,
    )
    .unwrap();
    assert_eq!(plan.link_list.len(), 2);
    assert!(plan.total_size > 0);
    assert!(!plan.has_executable);
    let inner = plan.link_list.iter().find(|link| link.relative_path == "inner-link").unwrap();
    assert_eq!(inner.target, format!("{}\\inner", target));
    let outer = plan.link_list.iter().find(|link| link.relative_path == "outer-link").unwrap();
    assert_eq!(outer.target, external);

    let mut tree = copy_dir(plan);
    let (mut made, mut copied, mut linked, mut steps) = (vec![], vec![], vec![], vec![]);
    while tree.result.is_none() {
        steps.extend(tree.progress().map(|note| note.step));
        let event = match tree.stage {
            TreeStage::MakeDirectory => {
                made.push(tree.directory());
                TreeEvent::Done
            }
            TreeStage::CopyFile => {
                let (from, to) = tree.file_places(tree.copied);
                assert!(from.starts_with(&source));
                copied.push(to);
                TreeEvent::Copied { bytes: tree.files[tree.copied].size }
            }
            TreeStage::MakeLink => {
                linked.push((tree.link(), tree.links[tree.linked].target.clone()));
                TreeEvent::Done
            }
            _ => TreeEvent::Done,
        };
        tree = tree.advance(event);
    }
    let (copied_total, skipped) = tree.result.unwrap().unwrap();
    assert_eq!(skipped, 0);
    assert_eq!(copied_total, 17);
    assert!(made.contains(&format!("{}\\empty-dir", target)));
    assert!(copied.contains(&format!("{}\\plain.bin", target)));
    assert!(copied.contains(&format!("{}\\inner\\keep\\a.bin", target)));
    assert!(copied.contains(&format!("{}\\{}", target, long)));
    assert_eq!(
        linked,
        vec![
            (format!("{}\\outer-link", target), external.clone()),
            (format!("{}\\inner-link", target), format!("{}\\inner", target)),
        ]
    );
    assert!(steps.contains(&"linking"));
}

fn run_to_end(plan: CopyPlan) -> (TreeCopy, Vec<(u64, &'static str)>) {
    let mut tree = copy_dir(plan);
    let mut told = Vec::new();
    loop {
        told.extend(tree.progress().map(|note| (note.percent, note.step)));
        if tree.result.is_some() {
            return (tree, told);
        }
        let event = match tree.stage {
            TreeStage::CopyFile => TreeEvent::Copied { bytes: tree.files[tree.copied].size },
            _ => TreeEvent::Done,
        };
        tree = tree.advance(event);
    }
}

#[test]
fn empty_files_are_copied_too() {
    let (tree, told) = run_to_end(plan_of(vec![file_entry("a", 0), file_entry("d\\b", 0)]));
    assert_eq!((tree.made, tree.copied, tree.linked), (1, 2, 0));
    assert_eq!(tree.result, Some(Ok((0, 0))));
    assert!(told.is_empty());
    let tree = copy_dir(plan_of(vec![file_entry("a", 0)]));
    assert_eq!(tree.stage, TreeStage::CopyFile);
    let tree = tree.advance(TreeEvent::Failed { reason: "denied".to_string() });
    assert_eq!(tree.result, Some(Err("denied".to_string())));
    match tree.conclude() {
        MigrationEvent::Failed { code: None, reason } => assert_eq!(reason, "denied"),
        other => panic!("{:?}", other),
    }
    let (tree, _) = run_to_end(plan_of(vec![file_entry("a", 0)]));
    assert!(matches!(tree.conclude_restore(), RestoreEvent::Done));
    let tree = copy_dir(plan_of(vec![file_entry("a", 0)])).advance(TreeEvent::Cancelled);
    match tree.conclude_restore() {
        RestoreEvent::Failed { reason } => assert_eq!(reason, "用户取消了迁移"),
        other => panic!("{:?}", other),
    }
    let (tree, _) = run_to_end(plan_of(vec![file_entry("a", 0), file_entry("b", 7)]));
    assert!(matches!(tree.conclude(), MigrationEvent::Copied { total: 7, skipped: 0 }));
}

#[test]
fn directories_alone_are_copied_at_once() {
    let (tree, told) = run_to_end(plan_of(vec![entry("d", EntryKind::Directory)]));
    assert_eq!((tree.made, tree.result), (1, Some(Ok((0, 0)))));
    assert_eq!(told, vec![(88, "copying")]);
    let tree = copy_dir(plan_of(Vec::new()));
    assert_eq!(tree.result, Some(Ok((0, 0))));
}

#[test]
fn trees_are_copied_in_order() {
    let plan = || {
        plan_of(vec![
            file_entry("s1", 1),
            file_entry("big", LARGE_FILE_THRESHOLD + 1),
            file_entry("s2", 2),
            entry("l", link_to("F:\\x")),
        ])
    };
    let tree = copy_dir(plan());
    let names: Vec<&str> = tree.files.iter().map(|file| file.relative_path.as_str()).collect();
    assert_eq!(names, vec!["big", "s1", "s2"]);
    assert_eq!(tree.large, 1);
    assert_eq!(tree.file_places(1), ("D:\\s\\s1".to_string(), "E:\\t\\s1".to_string()));
    let (tree, told) = run_to_end(plan());
    assert_eq!(tree.result, Some(Ok((LARGE_FILE_THRESHOLD + 4, 0))));
    assert_eq!((tree.copied, tree.linked), (3, 1));
    assert_eq!(told, vec![(10, "copying"), (89, "linking")]);
    let mut tree = copy_dir(plan());
    tree = tree.advance(TreeEvent::Copied { bytes: 0 });
    assert_eq!(tree.skipped, LARGE_FILE_THRESHOLD + 1);
    tree = tree.advance(TreeEvent::Done);
    assert_eq!(tree.copied, 1);
    tree = tree.advance(TreeEvent::PoolFailed { reason: "x".to_string() });
    assert_eq!(tree.result, Some(Err("创建复制线程池失败: x".to_string())));
}

#[test]
fn every_file_is_copied_once() {
    let file = |name: &str, size| PlannedFile {
        relative_path: name.to_string(),
        parent: String::new(),
        size,
    };
    let (large, small) = partition_files(vec![
        file("a", LARGE_FILE_THRESHOLD + 1),
        file("b", LARGE_FILE_THRESHOLD),
        file("c", LARGE_FILE_THRESHOLD + 2),
        file("d", 0),
        file("e", LARGE_FILE_THRESHOLD + 1),
    ]);
    let names = |files: &Vec<PlannedFile>| -> Vec<String> {
        files.iter().map(|f| f.relative_path.clone()).collect()
    };
    assert_eq!(names(&large), told(&["c", "a", "e"]));
    assert_eq!(names(&small), told(&["b", "d"]));
}

#[test]
fn copy_errors_are_told() {
    assert_eq!(
        map_copy_error("D:\\a", 32),
        "复制过程中文件被程序占用: D:\\a\n请关闭相关程序后重试。"
    );
    assert!(map_copy_error("D:\\a", 206).contains("（错误码 206：路径不存在或路径过长）"));
    assert_eq!(map_copy_error("D:\\a", 112), "复制文件失败 D:\\a（错误码 112）");
    assert!(metadata_failure("D:\\a", true, "x").starts_with("复制过程中文件被程序占用"));
    assert_eq!(metadata_failure("D:\\a", false, "x"), "读取文件元数据失败 D:\\a: x");
}

#[test]
fn unbuffered_copies_are_retried() {
    assert!(!starts_unbuffered(1));
    assert!(starts_unbuffered(268_435_456));
    assert_eq!(copy_flags(true), 4104);
    assert_eq!(copy_flags(false), 8);
    let failed = |code| CopyAttempt::Failed { code };
    assert!(matches!(
        copy_file_with_cancel("a", true, failed(87)),
        CopyDecision::RetryBuffered
    ));
    assert!(matches!(
        copy_file_with_cancel("a", false, failed(1235)),
        CopyDecision::Cancelled { .. }
    ));
    assert!(matches!(
        copy_file_with_cancel("a", false, failed(2)),
        CopyDecision::Failed { .. }
    ));
    assert!(matches!(
        copy_file_with_cancel("a", false, CopyAttempt::Copied),
        CopyDecision::Finished
    ));
}

#[test]
fn transferred_bytes_are_counted() {
    let mut count = FileCount::new(10);
    assert_eq!(count.transfer_delta(4), 4);
    assert_eq!(count.transfer_delta(3), 0);
    assert_eq!(count.count_rest(4), Some((6, 10)));
    assert_eq!(count.count_rest(100), Some((6, 106)));
    assert_eq!(count.take_back(), 4);
    assert_eq!(count.count_rest(0), Some((10, 10)));
    assert_eq!(count.transfer_delta(4), 4);
    assert_eq!(count.transfer_delta(12), 6);
    assert_eq!(count.count_rest(10), None);
}

#[test]
fn copying_ends_with_the_first_failure() {
    let mut run = CopyRun::new();
    assert!(run.goes_on(false));
    assert!(!run.goes_on(true));
    run.file_failed("first".to_string());
    run.file_failed("second".to_string());
    assert!(!run.goes_on(false));
    assert_eq!(run.error.as_deref(), Some("first"));
    let at = |stage, steps: Vec<ScanStep>| {
        let mut tree = copy_dir(plan_of(steps));
        while tree.stage != stage {
            let event = match tree.stage {
                TreeStage::CopyFile => TreeEvent::Copied { bytes: 1 },
                _ => TreeEvent::Done,
            };
            tree = tree.advance(event);
        }
        tree
    };
    let failed = || TreeEvent::Failed { reason: "x".to_string() };
    let reason = |tree: TreeCopy| tree.result.unwrap().unwrap_err();
    let steps = || vec![file_entry("d\\a", 1), entry("l", link_to("F:\\t"))];
    let tree = at(TreeStage::MakeDirectory, steps()).advance(failed());
    assert_eq!(reason(tree), "创建目录失败 E:\\t\\d: x");
    let tree = at(TreeStage::CopyFile, steps()).advance(failed());
    assert_eq!(reason(tree), "x");
    let tree = at(TreeStage::CheckCancel, steps()).advance(TreeEvent::Cancelled);
    assert_eq!(reason(tree), "用户取消了迁移");
    let tree = at(TreeStage::MakeLink, steps()).advance(failed());
    assert_eq!(reason(tree), "重建目录链接失败 E:\\t\\l -> F:\\t: x");
    let tree = at(TreeStage::MakeLink, steps()).advance(TreeEvent::Cancelled);
    assert_eq!(tree.linked, 0);
    let tree = tree.advance(TreeEvent::Done);
    assert_eq!(reason(tree), "用户取消了迁移");
}

#[test]
fn links_are_junctions_or_symbolic_links() {
    let made = || SymlinkAttempt::Made;
    assert_eq!(create_directory_link(true, made()).unwrap(), "Junction");
    assert_eq!(create_directory_link(false, made()).unwrap(), "Symlink");
    let denied = SymlinkAttempt::Failed { code: 1314, reason: "x".to_string() };
    assert_eq!(
        create_directory_link(false, denied).unwrap_err(),
        "创建目录链接失败：权限不足（错误码 1314）。\n\nJunction 和软链接均失败，请以管理员身份运行本程序后重试。"
    );
    let other = SymlinkAttempt::Failed { code: 3, reason: "x".to_string() };
    assert_eq!(
        create_directory_link(false, other).unwrap_err(),
        "创建目录链接失败（错误码 3）：x\n\n请以管理员身份运行本程序后重试。"
    );
}

#[test]
fn preflight_reports_each_failure() {
    let reason = |probe| preflight_directory_link(probe, "D:\\s").unwrap_err();
    assert_eq!(reason(PreflightProbe::NoParent), "源目录缺少父目录，无法预检链接: D:\\s");
    assert_eq!(
        reason(PreflightProbe::Occupied { probe: "p".to_string() }),
        "临时链接路径已存在: p"
    );
    assert_eq!(reason(PreflightProbe::NotMade { reason: "x".to_string() }), "x");
    assert_eq!(
        reason(PreflightProbe::NotRemoved { probe: "p".to_string(), reason: "x".to_string() }),
        "清理临时目录链接失败 p: x"
    );
    assert_eq!(link_removal_failure("p", "x"), "清理临时目录链接失败 p: x");
    assert!(preflight_directory_link(PreflightProbe::Removed, "D:\\s").is_ok());
}

#[test]
fn backups_are_named_and_found_again() {
    assert_eq!(probe_name(7, 8), ".viap_link_probe_7_8");
    assert_eq!(backup_name(7, 8, 9), ".viap_migration_backup_7_8_9");
    let parent = Some("D:\\".to_string());
    assert_eq!(create_migration_backup_path("D:\\s", &parent, &vec![true, false]).unwrap(), 1);
    assert_eq!(
        create_migration_backup_path("D:\\", &None, &vec![false]).unwrap_err(),
        "源目录缺少父目录，无法创建迁移备份：D:\\"
    );
    assert_eq!(
        create_migration_backup_path("D:\\s", &parent, &vec![true; 10]).unwrap_err(),
        "无法创建唯一的迁移备份路径，请清理 D:\\ 下的 .viap_migration_backup_* 后重试"
    );
    assert!(!is_leftover_backup(&backup_name(7, 8, 9), 7));
    assert!(is_leftover_backup(&backup_name(7, 8, 9), 8));
    assert!(!is_leftover_backup("other", 8));
    let found = |name: &str, is_directory| DirectoryEntry { name: name.to_string(), is_directory };
    assert_eq!(
        cleanup_leftover_backups(
            &vec![
                found(".viap_migration_backup_1_2_3", true),
                found(".viap_migration_backup_1_2_4", false),
                found(".viap_migration_backup_5_2_3", true),
                found("x", true),
            ],
            5
        ),
        told(&[".viap_migration_backup_1_2_3"])
    );
}

fn link_probe(is_junction: bool, same: bool) -> LinkProbe {
    LinkProbe {
        is_junction,
        actual_target: Some("E:\\a".to_string()),
        expected: Ok("E:\\T".to_string()),
        actual: Ok("E:\\A".to_string()),
        same,
    }
}

#[test]
fn links_are_verified_before_backups_go() {
    let verify = |probe: &LinkProbe| verify_directory_link(probe, "D:\\l", "E:\\t");
    assert!(verify(&link_probe(true, true)).is_ok());
    assert_eq!(
        verify(&link_probe(false, true)).unwrap_err(),
        "原路径未成为目录链接：D:\\l"
    );
    assert_eq!(
        verify(&link_probe(true, false)).unwrap_err(),
        "目录链接目标不一致：预期 E:\\T，实际 E:\\A"
    );
    let mut probe = link_probe(true, true);
    probe.actual_target = None;
    assert_eq!(verify(&probe).unwrap_err(), "无法读取目录链接目标：D:\\l");
    let mut probe = link_probe(true, true);
    probe.expected = Err("x".to_string());
    assert_eq!(verify(&probe).unwrap_err(), "无法解析目标目录：E:\\t，原因：x");
    let mut probe = link_probe(true, true);
    probe.actual = Err("x".to_string());
    assert_eq!(verify(&probe).unwrap_err(), "无法解析目录链接目标：E:\\a，原因：x");
}

#[test]
fn only_own_links_are_replaced_by_the_backup() {
    let prepare = |probe: &LinkProbe, present| {
        restore_source_from_backup(probe, present, "D:\\s", "E:\\t")
    };
    assert!(matches!(
        prepare(&link_probe(true, true), true).unwrap(),
        RestorePreparation::RemoveLink
    ));
    assert!(matches!(
        prepare(&link_probe(false, true), false).unwrap(),
        RestorePreparation::Nothing
    ));
    assert_eq!(
        prepare(&link_probe(false, true), true).unwrap_err(),
        "原路径出现非目录链接内容，拒绝覆盖以保护数据：D:\\s"
    );
    assert_eq!(
        rename_back_failure("b", "s", "x"),
        "恢复原目录失败：b -> s，原因：x"
    );
}

#[test]
fn removal_failures_keep_the_first_of_each_kind() {
    let failure = |path: &str, reason: &str| RemovalFailure {
        path: path.to_string(),
        reason: reason.to_string(),
    };
    let mut failures = RemovalFailures::new();
    failures.note_directory(failure("d", "r"));
    assert_eq!(
        failures.describe("root"),
        "子目录删除失败（目录：d，原因：r）；根目录删除失败：root"
    );
    failures.note_file(failure("f", "r"));
    failures.note_file(failure("g", "r"));
    assert_eq!(
        failures.describe("root"),
        "文件删除失败（被占用：f，原因：r）；根目录删除失败：root"
    );
    assert_eq!(RemovalFailures::new().describe("root"), "root");
}

#[test]
fn lists_of_locked_files_are_short() {
    assert!(is_lock_error(32) && is_lock_error(5) && !is_lock_error(2));
    assert_eq!(listed_path("D:\\s\\a\\b.dll", "d:/s/"), "a\\b.dll");
    assert_eq!(listed_path("E:\\b.dll", "D:\\s"), "E:\\b.dll");
    let mut files: Vec<String> = Vec::new();
    for i in 0..9 {
        assert!(!add_locked(&mut files, format!("{}", i)));
    }
    assert!(add_locked(&mut files, "9".to_string()));
    assert!(add_locked(&mut files, "10".to_string()));
    assert_eq!(files.len(), 10);
    assert_eq!(files[9], "9");
    let sorted = check_directory_file_locks(told(&["b", "a"]), false);
    assert_eq!(sorted, told(&["a", "b"]));
    assert!(check_directory_file_locks(Vec::new(), false).is_empty());
    assert_eq!(check_directory_file_locks(told(&["b", "a"]), true), told(&["检测已取消"]));
    let many: Vec<String> = (0..25).map(|i| format!("{:02}", 24 - i)).collect();
    let listed = check_directory_file_locks(many, false);
    assert_eq!(listed.len(), 10);
    assert_eq!((listed[0].as_str(), listed[9].as_str()), ("15", "24"));
}

#[test]
fn space_is_that_of_the_nearest_mount() {
    let mount = |point: &str, available| Mount { mount_point: point.to_string(), available };
    let mounts = vec![mount("D:\\", 1), mount("d:\\data", 2), mount("E:", 3)];
    assert_eq!(get_available_space("D:\\data\\x", &mounts), 2);
    assert_eq!(get_available_space("d:\\other", &mounts), 1);
    assert_eq!(get_available_space("F:\\x", &mounts), 0);
}

#[test]
fn stages_are_shown() {
    let shown = |m: &Migration| {
        m.progress().map(|n| (n.percent, n.step, n.message, n.copied_size, n.total_size))
    };
    let mut m = migrate_app(request("D:\\Apps\\Foo", false, false));
    assert_eq!(shown(&m), None);
    m.source_size = 7;
    m.stage = MigrationStage::CheckCancelBeforeScan;
    assert_eq!(shown(&m), Some((0, "checking", "正在检测文件占用...", 0, 0)));
    m.stage = MigrationStage::MoveSource;
    assert_eq!(shown(&m), Some((50, "copying", "同盘迁移，正在移动目录...", 7, 7)));
    m.stage = MigrationStage::MeasureTarget;
    assert_eq!(shown(&m), Some((90, "verifying", "正在校验文件完整性...", 7, 7)));
    m.stage = MigrationStage::PreflightLink;
    assert_eq!(shown(&m), Some((93, "linking", "正在创建目录链接...", 7, 7)));
    m.stage = MigrationStage::Finished;
    assert_eq!(shown(&m), None);
}

#[test]
fn links_are_kept_on_rolling_back() {
    let mut r = restore_at_copy();
    r = r.advance(RestoreEvent::Failed { reason: "disk".to_string() });
    r = r.advance(RestoreEvent::OriginalProbed { is_junction: true, exists: true });
    assert_eq!(r.stage, RestoreStage::ProbeUnlinked);
    r = r.advance(RestoreEvent::OriginalProbed { is_junction: true, exists: true });
    match r.result {
        Some(Err(reason)) => assert_eq!(
            reason,
            "恢复复制失败：disk\n已自动恢复目录链接，数据仍完整保存在：E:\\t"
        ),
        other => panic!("{:?}", other),
    }
    let mut r = restore_at_copy();
    r = r.advance(RestoreEvent::Failed { reason: "disk".to_string() });
    r = r.advance(RestoreEvent::OriginalProbed { is_junction: false, exists: true });
    r = r.advance(RestoreEvent::Failed { reason: "busy".to_string() });
    r = r.advance(RestoreEvent::OriginalProbed { is_junction: false, exists: false });
    r = r.advance(RestoreEvent::Failed { reason: "denied".to_string() });
    match r.result {
        Some(Err(reason)) => assert_eq!(
            reason,
            "恢复复制失败：disk\n自动回滚未完全成功。目标数据仍完整保存在：E:\\t；\
             cleanup=Some(\"清理原路径半成品失败: busy\")；\
             link=Some(\"重建目录链接失败: denied\")"
        ),
        other => panic!("{:?}", other),
    }
}

#[test]
fn steps_of_a_restore_are_shown() {
    let shown = |r: &Restore| {
        r.progress().map(|n| (n.percent, n.step, n.message, n.copied_size, n.total_size))
    };
    let mut r = restore_directory_with_progress("D:\\o".to_string(), "E:\\t".to_string());
    assert_eq!(shown(&r), None);
    r.total_size = 100;
    r.restored_size = 99;
    r.stage = RestoreStage::ProbeOriginal;
    assert_eq!(shown(&r), Some((9, "linking", "正在移除原目录链接...", 0, 100)));
    r.stage = RestoreStage::MeasureOriginal;
    assert_eq!(shown(&r), Some((90, "verifying", "正在校验恢复完整性...", 100, 100)));
    r.stage = RestoreStage::RemoveTarget;
    assert_eq!(shown(&r), Some((96, "linking", "正在清理目标副本...", 99, 100)));
    r.stage = RestoreStage::RemoveLeftovers;
    r = r.advance(RestoreEvent::Done);
    assert_eq!(shown(&r), Some((100, "done", "恢复完成", 99, 100)));
}

#[test]
fn locked_source_is_never_moved() {
    for (found, hint) in [
        (
            true,
            "被占用的文件通常是 .dll 等被资源管理器或系统服务加载的组件，\n\
             请注销当前用户或重启系统后重试。",
        ),
        (false, "请关闭正在使用这些文件的程序（如浏览器、游戏、编辑器等）后重试。"),
    ] {
        let mut m = migrate_app(request("D:\\Apps\\Foo", false, false));
        for event in [
            probed_source(),
            probed_parent(),
            no_target(),
            MigrationEvent::CancelRead { cancelled: false },
            MigrationEvent::ExecutablesSought { found },
        ] {
            m = m.advance(event);
        }
        if found {
            m = m.advance(MigrationEvent::ProcessesListed { processes: Vec::new() });
        }
        assert_eq!(m.stage, MigrationStage::ProbeLocks);
        let locked = told(&["a.dll", "b.dll"]);
        m = m.advance(MigrationEvent::LocksProbed { locked, cancelled: false });
        assert_eq!(
            message_of(&m),
            format!(
                "目录中有文件正被其他程序占用，无法迁移。\n\n被占用的文件：\n  • a.dll\n  • b.dll\n\n{}",
                hint
            )
        );
        m = m.advance(MigrationEvent::Done);
        assert_eq!(m.stage, MigrationStage::Finished);
    }
}
