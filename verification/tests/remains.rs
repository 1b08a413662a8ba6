use viap::app_manager::force_remove::{
    force_remove_application, validate_deletion_target, ListedEntry, RemovalFact,
    RemovalStage,
};
use viap::app_manager::registry::{Hive, KeyFacts};
use viap::app_manager::remains_cleanup::{
    cleanup_status, execute_cleanup, force_delete_path, takeover_calls, CleanupFact, CleanupTask,
    Deletion,
};
use viap::app_manager::residue::{
    build_strict_scan_context, extract_last_path_component,
    is_blacklisted_path, matches_registry_key_strict, matches_strict_leftover_path, FoundPath,
    StrictScanContext,
};
use viap::app_manager::residue_scan::{
    build_scan_roots, scan_app_residue, searches_root, ClassKey, PublisherKey, ResidueScan,
};
use viap::app_manager::uninstall_search::UninstallEntry;
use viap::app_manager::uninstaller::{CleanupResult, UninstallInput};

fn list(names: &[&str]) -> Vec<String> {
    names.iter().map(|name| name.to_string()).collect()
}

fn some(text: &str) -> Option<String> {
    Some(text.to_string())
}

#[test]
fn system_paths_are_not_touched() {
    assert!(is_blacklisted_path("C:\\Windows\\x"));
    assert!(is_blacklisted_path("C:\\Program Files"));
    assert!(is_blacklisted_path("D:\\Microsoft\\x"));
    assert!(is_blacklisted_path("D:\\"));
    assert!(is_blacklisted_path("\\\\server\\share"));
    assert!(!is_blacklisted_path("C:\\Program Files\\App"));
}

fn context(publisher: Option<&str>, location: Option<&str>) -> StrictScanContext {
    build_strict_scan_context(
        "Clash Verge",
        &publisher.map(|s| s.to_string()),
        &location.map(|s| s.to_string()),
        &Vec::new(),
        &Vec::new(),
    )
    .unwrap()
}

#[test]
fn contexts_are_built_from_names() {
    let c = context(Some("Verge Inc"), Some("D:/Apps/Clash"));
    assert_eq!(c.app_name_exact, "clash verge");
    assert_eq!(c.app_folder_name, "clash");
    assert_eq!(context(None, None).app_folder_name, "clash verge");
    assert_eq!(c.publisher_name.as_deref(), Some("verge inc"));
    assert_eq!(c.install_location.as_deref(), Some("d:\\apps\\clash"));
    assert_eq!(c.uninstall_path_hints, list(&["d:\\apps\\clash"]));
    assert_eq!(extract_last_path_component("D:/Apps/Clash/").unwrap(), "clash");
    assert!(extract_last_path_component(" ").is_none());
    assert!(extract_last_path_component("D:\\").is_none());
    assert!(build_strict_scan_context(" ", &None, &None, &Vec::new(), &Vec::new()).is_none());
}

#[test]
fn remains_bear_the_folder_name() {
    let c = context(None, None);
    assert!(matches_strict_leftover_path(
        "D:\\Data\\Clash Verge\\x",
        &c
    ));
    assert!(!matches_strict_leftover_path(
        "D:\\Data\\Clash Verge 2",
        &c
    ));
    assert!(!matches_strict_leftover_path(
        "D:\\Windows\\Clash Verge",
        &c
    ));
}

#[test]
fn shares_are_no_folders() {
    let c = context(None, None);
    assert!(!matches_strict_leftover_path("\\\\server\\Clash Verge\\x", &c));
    assert!(matches_strict_leftover_path("\\\\server\\share\\Clash Verge\\x", &c));
}

#[test]
fn remains_lie_deeper_than_the_publisher() {
    let c = context(Some("acme"), None);
    assert!(matches_strict_leftover_path(
        "D:\\acme\\Clash Verge",
        &c
    ));
    assert!(!matches_strict_leftover_path(
        "D:\\Clash Verge\\acme",
        &c
    ));
}

fn listed(name: &str, command: &str) -> UninstallEntry {
    UninstallEntry {
        hive: Hive::CurrentUser,
        path: format!("SOFTWARE\\Uninstall\\{}", name),
        display_name: name.to_string(),
        install_location: String::new(),
        uninstall_string: command.to_string(),
        quiet_uninstall_string: String::new(),
    }
}

#[test]
fn entries_match_by_name_or_command() {
    let c = context(None, Some("D:\\Apps\\Clash"));
    assert!(matches_registry_key_strict(&listed("\"Clash Verge\"", ""), &c));
    assert!(matches_registry_key_strict(&listed("x", "D:/apps/clash/un.exe"), &c));
    assert!(!matches_registry_key_strict(&listed("x", "D:/apps/other/un.exe"), &c));
}

fn found(path: &str, is_dir: bool, size_hundredths: u64) -> FoundPath {
    FoundPath { path: path.to_string(), is_dir, size_hundredths }
}

#[test]
fn no_remain_is_listed_twice_and_larger_ones_come_first() {
    let c = context(Some("acme"), None);
    let mut scan = ResidueScan::new();
    scan.scan_filesystem_residue(
        &vec![
            found("D:\\Clash Verge", true, 5),
            found("D:\\a\\Clash Verge", false, 9),
            found("d:\\clash verge", true, 7),
        ],
        &c,
    );
    scan.scan_registry_residue(&vec![listed("Clash Verge", ""), listed("Other", "")], &c);
    scan.scan_publisher_registry_residue(
        &vec![PublisherKey {
            hive: Hive::CurrentUser,
            root_path: "SOFTWARE".to_string(),
            name: "Clash Verge".to_string(),
            facts: facts(true, true),
        }],
        &c,
    );
    scan.scan_classes_registry_residue(
        &vec![
            ClassKey {
                hive: Hive::LocalMachine,
                root_path: "SOFTWARE\\Classes\\Applications".to_string(),
                name: "Clash Verge.exe".to_string(),
            },
            ClassKey {
                hive: Hive::LocalMachine,
                root_path: "SOFTWARE\\Classes\\Applications".to_string(),
                name: "other.exe".to_string(),
            },
        ],
        &c,
    );
    let items = scan_app_residue(scan);
    let told: Vec<(&str, &str, u64)> = items
        .iter()
        .map(|i| (i.path.as_str(), i.item_type.as_str(), i.size_hundredths))
        .collect();
    assert_eq!(
        told,
        vec![
            ("D:\\a\\Clash Verge", "File", 9),
            ("D:\\Clash Verge", "Folder", 5),
            ("HKCU\\SOFTWARE\\Uninstall\\Clash Verge", "Registry", 0),
            ("HKCU\\SOFTWARE\\acme\\Clash Verge", "Registry", 0),
            ("HKLM\\SOFTWARE\\Classes\\Applications\\Clash Verge.exe", "Registry", 0),
        ]
    );
    assert!(items.iter().all(|i| i.selected));
}

#[test]
fn roots_are_searched_if_they_are_directories() {
    assert!(searches_root("D:\\Apps", true, true));
    assert!(!searches_root("D:\\Apps", false, true));
    assert!(!searches_root("D:\\Apps", true, false));
    assert!(!searches_root("C:\\Windows", true, true));
    let roots = build_scan_roots("A", "L", &some("D:\\x"), list(&["E:\\y"]));
    assert!(roots.contains(&"A".to_string()));
    assert!(roots.contains(&"L".to_string()));
    assert!(roots.contains(&"D:\\x".to_string()));
    assert!(roots.contains(&"E:\\y".to_string()));
}

fn facts(opens: bool, is_empty: bool) -> KeyFacts {
    KeyFacts {
        opens,
        is_empty,
        display_name: String::new(),
        publisher: String::new(),
        install_location: String::new(),
        uninstall_string: String::new(),
    }
}

#[test]
fn cleanup_deletes_what_was_approved() {
    let mut cleanup =
        execute_cleanup(list(&["HKCU\\SOFTWARE\\Acme\\Clash", "D:\\x"]), &some("Clash"), &None);
    assert!(matches!(cleanup.task(), CleanupTask::InspectKey(_)));
    cleanup.advance(&CleanupFact::Key(facts(true, true)));
    match cleanup.task() {
        CleanupTask::DeleteKey(key) => assert_eq!(key.path, "SOFTWARE\\Acme\\Clash"),
        _ => panic!("the key is approved"),
    }
    cleanup.advance(&CleanupFact::Deleted(true));
    assert!(matches!(cleanup.task(), CleanupTask::InspectPath(_)));
    cleanup.advance(&CleanupFact::Path { present: true });
    assert!(matches!(cleanup.task(), CleanupTask::DeletePath(_)));
    cleanup.advance(&CleanupFact::Deleted(true));
    assert!(matches!(cleanup.task(), CleanupTask::Finished));
    let result = cleanup.conclude();
    assert!(result.success);
    assert_eq!(result.cleaned_count, 2);
    assert_eq!(result.message, "清理完成，共删除 2 项");
}

#[test]
fn cleanup_deals_with_every_item_once() {
    let mut cleanup = execute_cleanup(list(&["D:\\Windows\\x", "D:\\y"]), &None, &None);
    cleanup.advance(&CleanupFact::Path { present: true });
    match cleanup.task() {
        CleanupTask::InspectPath(path) => assert_eq!(path, "D:\\y"),
        _ => panic!("the second path comes next"),
    }
    cleanup.advance(&CleanupFact::Path { present: true });
    cleanup.advance(&CleanupFact::Deleted(true));
    let result = cleanup.conclude();
    assert_eq!(result.cleaned_count + result.failed_items.len(), 2);
    assert_eq!(result.message, "清理部分完成：成功 1 项，失败 1 项（失败项可能需管理员权限）");
}

#[test]
fn cleanup_of_nothing_and_of_everything_failed() {
    let result = execute_cleanup(Vec::new(), &None, &None).conclude();
    assert!(result.success);
    assert_eq!(result.message, "没有需要清理的项目");
    let mut cleanup = execute_cleanup(list(&["D:\\Windows\\x"]), &None, &None);
    cleanup.advance(&CleanupFact::Path { present: true });
    let result = cleanup.conclude();
    assert!(!result.success);
    assert_eq!(
        result.message,
        "所有 1 项清理均失败（可能需管理员权限），请以管理员身份运行后重试"
    );
}

#[test]
fn cleanup_has_two_statuses() {
    let result = |success| CleanupResult {
        success,
        message: String::new(),
        cleaned_count: 1,
        failed_items: Vec::new(),
    };
    assert_eq!(cleanup_status(&result(true)), "success");
    assert_eq!(cleanup_status(&result(false)), "partial_failure");
}

#[test]
fn deletion_goes_through_three_attempts() {
    let first = force_delete_path(Deletion::Plain, some("a"));
    assert!(matches!(first, Deletion::WithoutReadOnly));
    let second = force_delete_path(first, some("b"));
    match &second {
        Deletion::AfterTakeover(reason) => assert_eq!(reason, "b"),
        _ => panic!("rights are taken over"),
    }
    match force_delete_path(second, some("c")) {
        Deletion::Failed(reason) => assert_eq!(reason, "删除失败：b；权限回退后仍失败：c"),
        _ => panic!("it failed"),
    }
    assert!(matches!(force_delete_path(Deletion::Plain, None), Deletion::Deleted));
    let (own, grant) = takeover_calls("D:\\x", false);
    assert_eq!((own.program, grant.program), ("takeown", "icacls"));
    assert_eq!(own.args, list(&["/F", "D:\\x"]));
    assert_eq!(grant.args, list(&["D:\\x", "/grant", "*S-1-5-32-544:F", "/C", "/Q"]));
}

#[test]
fn deletion_targets_are_validated() {
    assert!(validate_deletion_target("D:\\a\\b\\Clash", true, "clash verge").is_ok());
    assert!(validate_deletion_target("C:\\Users\\xxx\\AppName", true, "AppName").is_ok());
    assert_eq!(
        validate_deletion_target("D:\\x", false, "").unwrap_err(),
        "目标路径不存在: D:\\x"
    );
    assert_eq!(
        validate_deletion_target("C:\\Windows", true, "").unwrap_err(),
        "拒绝删除系统/受保护目录: C:\\Windows。该目录在黑名单中。"
    );
    assert_eq!(
        validate_deletion_target("D:\\Foo", true, "Foo").unwrap_err(),
        "拒绝删除顶层/浅层目录 (深度=1): D:\\Foo。至少需要 3 级路径深度。"
    );
    assert_eq!(
        validate_deletion_target("D:\\x\\y\\", true, "").unwrap_err(),
        "拒绝删除顶层/浅层目录 (深度=2): D:\\x\\y\\。至少需要 3 级路径深度。"
    );
    assert_eq!(
        validate_deletion_target("D:\\a\\b\\Foo", true, "Bar").unwrap_err(),
        "安全校验未通过：目录名 'foo' 与应用名 'Bar' 无匹配关系，拒绝删除以防误删无关应用。"
    );
}

fn removal_input(app_id: Option<&str>, location: Option<&str>, bin: bool) -> UninstallInput {
    UninstallInput {
        app_id: app_id.map(|s| s.to_string()),
        registry_path: None,
        install_location: location.map(|s| s.to_string()),
        use_recycle_bin: Some(bin),
    }
}

#[test]
fn only_the_application_directory_is_removed() {
    let mut removal = force_remove_application(removal_input(Some("Clash"), None, true));
    assert!(matches!(removal.stage, RemovalStage::ListRoot(0)));
    removal.advance(&RemovalFact::Entries(Vec::new()));
    removal.advance(&RemovalFact::Entries(vec![ListedEntry {
        name: "clash".to_string(),
        display_name: " CLASH ".to_string(),
        place: some("D:\\Apps\\x\\Clash"),
        facts: facts(true, true),
    }]));
    match &removal.stage {
        RemovalStage::DeleteEntry { root, path } => {
            assert_eq!(*root, 1);
            assert!(path.ends_with("\\Uninstall\\clash"));
        }
        other => panic!("{:?}", other),
    }
    removal.advance(&RemovalFact::Deleted(true));
    removal.advance(&RemovalFact::Entries(Vec::new()));
    match &removal.stage {
        RemovalStage::InspectPlace(path) => assert_eq!(path, "D:\\Apps\\x\\Clash"),
        other => panic!("{:?}", other),
    }
    assert!(removal.conclude().is_none());
    removal.advance(&RemovalFact::Place { present: true });
    assert!(matches!(removal.stage, RemovalStage::RemovePlace(_)));
    removal.advance(&RemovalFact::Removal(None));
    let result = removal.conclude().unwrap().unwrap();
    assert!(result.success);
    assert_eq!(
        result.message,
        "强制删除完成：文件已删除，注册表已清理。建议运行残留扫描彻底清理。（已移入回收站）"
    );
    assert_eq!(removal.log_text(), "强制删除完成，文件已删除:true, 注册表已清理:true");
}

#[test]
fn removal_is_refused_for_foreign_directories() {
    let mut removal = force_remove_application(removal_input(None, Some("D:\\Apps\\X"), true));
    removal.advance(&RemovalFact::Place { present: true });
    assert!(removal.conclude().unwrap().is_err());
    let mut removal = force_remove_application(removal_input(None, Some("D:\\A\\B\\X"), true));
    removal.advance(&RemovalFact::Place { present: true });
    removal.advance(&RemovalFact::Removal(some("busy")));
    assert_eq!(
        removal.conclude().unwrap().unwrap_err(),
        "移入回收站失败: busy。已拒绝直接删除以确保安全。"
    );
    let mut removal = force_remove_application(removal_input(None, Some("D:\\Apps\\X"), false));
    removal.advance(&RemovalFact::Place { present: false });
    assert_eq!(
        removal.conclude().unwrap().unwrap_err(),
        "未找到可清理的文件或注册表项。应用可能已被完全卸载。"
    );
}
