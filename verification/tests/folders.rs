use viap::folder_manager::restore::{
    restore_large_folder, restore_large_folder_by_history, restored_folder, RestoreDecision,
    RestoreFacts,
};
use viap::folder_manager::size_scan::{
    calculate_directory_size, folder_size, scan_path, size_event, start_app_data_size_scan,
    start_folder_size_scan,
};
use viap::folder_manager::templates::{
    default_app_data_templates, load_app_data_templates, merge_missing_default_templates,
    remove_deprecated_app_data_templates, StoredTemplates,
};
use viap::folder_manager::{
    add_custom_folder, get_large_folders, is_missing_default_builtin_path, migrate_large_folder,
    remove_custom_folder, DetectedFolder, FolderProbe, ProbedCustomFolder, ProbedTemplate,
    SourceFacts, SystemPlaces,
};
use viap::migration::ProcessInfo;
use viap::models::{
    default_icon_id, default_process_names, default_record_type, is_false, AppDataTemplate,
    CustomFolderEntry, LargeFolder, LargeFolderType, LinkRecoveryImportResult, MigrationRecord,
    MigrationRecordType, MirrorImportResult,
};

fn template(id: &str, path: Option<&str>) -> AppDataTemplate {
    AppDataTemplate {
        id: id.to_string(),
        display_name: "T".to_string(),
        icon_id: "i".to_string(),
        process_names: vec!["p.exe".to_string()],
        path: path.map(|s| s.to_string()),
    }
}

fn probe(path: &str, exists: bool, target: Option<&str>) -> FolderProbe {
    FolderProbe {
        path: path.to_string(),
        exists,
        is_junction: target.is_some(),
        junction_target: target.map(|s| s.to_string()),
    }
}

fn custom_entry(id: &str, path: &str) -> CustomFolderEntry {
    CustomFolderEntry {
        id: id.to_string(),
        path: path.to_string(),
        display_name: "C".to_string(),
    }
}

fn ids(folders: &Vec<LargeFolder>) -> Vec<&str> {
    folders.iter().map(|f| f.id.as_str()).collect()
}

#[test]
fn large_folders_are_listed_by_group() {
    let places = SystemPlaces {
        desktop: Some(probe("D:\\desk", true, Some("E:\\desk"))),
        documents: None,
        downloads: Some(probe("D:\\down", true, None)),
        pictures: None,
        videos: None,
    };
    let templates = vec![
        ProbedTemplate { template: template("own", Some("D:\\x")), place: probe("D:\\x", false, None) },
        ProbedTemplate { template: template("qq", None), place: probe("", false, None) },
        ProbedTemplate { template: template("none", None), place: probe("", false, None) },
    ];
    let detected =
        vec![DetectedFolder { name: "qq".to_string(), place: probe("D:\\qq", true, None) }];
    let custom = vec![ProbedCustomFolder {
        entry: custom_entry("c1", "D:\\c"),
        place: probe("D:\\c", true, None),
    }];
    let folders = get_large_folders(&places, &templates, &detected, &custom);
    assert_eq!(ids(&folders).len(), 5);
    assert_eq!(ids(&folders)[0], "downloads");
    assert_eq!(*ids(&folders).last().unwrap(), "desktop");
    assert!(ids(&folders).contains(&"own"));
    assert!(ids(&folders).contains(&"qq"));
    assert!(ids(&folders).contains(&"c1"));
    let desktop = folders.last().unwrap();
    assert_eq!(desktop.junction_target.as_deref(), Some("E:\\desk"));
    assert_eq!(desktop.app_process_names, vec!["explorer.exe"]);
    assert_eq!(desktop.display_name, "桌面");
    assert!(folders.iter().all(|f| f.size == 0));
}

#[test]
fn missing_built_in_folders_are_hidden() {
    assert!(is_missing_default_builtin_path(&template("CARGO_HOME", Some("%userprofile%\\.cargo"))));
    assert!(!is_missing_default_builtin_path(&template("cargo_home", Some("D:\\cargo"))));
    assert!(!is_missing_default_builtin_path(&template("x", Some("%USERPROFILE%\\.cargo"))));
    let places = SystemPlaces {
        desktop: None,
        documents: None,
        downloads: None,
        pictures: None,
        videos: None,
    };
    let templates = vec![ProbedTemplate {
        template: template("cargo_home", Some("%USERPROFILE%\\.cargo")),
        place: probe("C:\\Users\\me\\.cargo", false, None),
    }];
    assert!(get_large_folders(&places, &templates, &Vec::new(), &Vec::new()).is_empty());
}

fn source(exists: bool, is_dir: bool) -> SourceFacts {
    SourceFacts { exists, is_dir }
}

#[test]
fn folders_are_moved_under_their_names() {
    assert_eq!(migrate_large_folder("D:\\a", &source(true, true)).unwrap(), "a");
    assert_eq!(migrate_large_folder("D:\\", &source(true, true)).unwrap(), "unknown");
    assert_eq!(
        migrate_large_folder("D:\\a", &source(false, false)).unwrap_err(),
        "源路径不存在: D:\\a"
    );
    assert_eq!(
        migrate_large_folder("D:\\a", &source(true, false)).unwrap_err(),
        "源路径必须是一个目录"
    );
}

#[test]
fn no_folder_is_added_twice() {
    let facts = source(true, true);
    let added = add_custom_folder(Vec::new(), "D:\\Foo".to_string(), &facts, "1".to_string()).unwrap();
    assert_eq!(added[0].display_name, "Foo");
    assert_eq!(
        add_custom_folder(added, "d:\\foo".to_string(), &facts, "2".to_string()).unwrap_err(),
        "该文件夹已在列表中"
    );
    assert_eq!(
        add_custom_folder(Vec::new(), "D:\\x".to_string(), &source(true, false), "3".to_string())
            .unwrap_err(),
        "路径不存在或不是文件夹: D:\\x"
    );
}

#[test]
fn removing_undoes_adding() {
    let before = vec![custom_entry("0", "D:\\zero")];
    let facts = source(true, true);
    let added = add_custom_folder(before, "D:\\Foo".to_string(), &facts, "1".to_string()).unwrap();
    assert_eq!(added[1].display_name, "Foo");
    let left = remove_custom_folder(added, "1").unwrap();
    assert_eq!(left.len(), 1);
    assert_eq!(left[0].id, "0");
    assert_eq!(remove_custom_folder(left, "1").unwrap_err(), "未找到该自定义文件夹");
}

fn restore_facts() -> RestoreFacts {
    RestoreFacts {
        is_junction: true,
        link_target: Some("E:\\t".to_string()),
        target_exists: true,
        target_empty: Ok(false),
        processes: Vec::new(),
    }
}

#[test]
fn only_linked_folders_are_moved_back() {
    match restore_large_folder(&restore_facts()) {
        RestoreDecision::Proceed(target) => assert_eq!(target, "E:\\t"),
        _ => panic!("it is moved back"),
    }
    let mut facts = restore_facts();
    facts.is_junction = false;
    match restore_large_folder(&facts) {
        RestoreDecision::Failed(reason) => assert_eq!(reason, "该路径不是一个符号链接，无法恢复"),
        _ => panic!("it fails"),
    }
    let mut facts = restore_facts();
    facts.target_exists = false;
    match restore_large_folder(&facts) {
        RestoreDecision::Failed(reason) => assert_eq!(reason, "目标路径不存在: E:\\t"),
        _ => panic!("it fails"),
    }
    let mut facts = restore_facts();
    facts.target_empty = Ok(true);
    match restore_large_folder(&facts) {
        RestoreDecision::Refused(result) => assert!(result.message.contains("没有可恢复的数据：E:\\t")),
        _ => panic!("it is refused"),
    }
}

fn record() -> MigrationRecord {
    MigrationRecord {
        id: "1".to_string(),
        app_name: "A".to_string(),
        original_path: "D:\\o".to_string(),
        target_path: "E:\\t".to_string(),
        size: 1,
        migrated_at: 2,
        status: "active".to_string(),
        record_type: MigrationRecordType::LargeFolder,
    }
}

#[test]
fn running_programs_block_restoring() {
    let mut facts = restore_facts();
    facts.processes = vec![
        ProcessInfo { name: "a.exe".to_string(), exe: Some("E:\\T\\a.exe".to_string()) },
        ProcessInfo { name: "b.exe".to_string(), exe: Some("F:\\b.exe".to_string()) },
    ];
    match restore_large_folder_by_history(&record(), &facts) {
        RestoreDecision::Refused(result) => {
            assert!(result.message.starts_with("检测到以下程序正在运行，请关闭后重试：\na.exe\n\n"))
        }
        _ => panic!("it is refused"),
    }
    facts.processes.remove(0);
    match restore_large_folder_by_history(&record(), &facts) {
        RestoreDecision::Proceed(target) => assert_eq!(target, "E:\\t"),
        _ => panic!("it is moved back"),
    }
    facts.is_junction = false;
    match restore_large_folder_by_history(&record(), &facts) {
        RestoreDecision::Refused(result) => assert_eq!(
            result.message,
            "原路径 D:\\o 不是目录联接，拒绝恢复以保护数据安全。"
        ),
        _ => panic!("it is refused"),
    }
}

#[test]
fn restored_folders_are_told() {
    let result = restored_folder("E:\\t", "D:\\o", "1 GB", &Some("w".to_string()));
    assert!(result.success);
    assert_eq!(result.message, "恢复成功！文件夹已从 E:\\t 移回 D:\\o（1 GB）\n\nw");
    assert_eq!(result.new_path.as_deref(), Some("D:\\o"));
}

fn folder(id: &str, folder_type: LargeFolderType) -> LargeFolder {
    LargeFolder {
        id: id.to_string(),
        display_name: String::new(),
        path: "D:\\f".to_string(),
        size: 0,
        folder_type,
        is_junction: false,
        junction_target: None,
        app_process_names: Vec::new(),
        icon_id: String::new(),
        exists: true,
    }
}

#[test]
fn each_folder_is_measured_by_one_scan() {
    let all = || {
        vec![
            folder("s", LargeFolderType::System),
            folder("a", LargeFolderType::AppData),
            folder("c", LargeFolderType::Custom),
        ]
    };
    assert_eq!(ids(&start_folder_size_scan(all())), vec!["s", "c"]);
    assert_eq!(ids(&start_app_data_size_scan(all())), vec!["a"]);
}

#[test]
fn sizes_are_those_behind_links() {
    let mut one = folder("a", LargeFolderType::System);
    assert_eq!(scan_path(&one).unwrap(), "D:\\f");
    one.is_junction = true;
    assert!(scan_path(&one).is_none());
    one.junction_target = Some("E:\\t".to_string());
    assert_eq!(scan_path(&one).unwrap(), "E:\\t");
    assert_eq!(folder_size(&one, &Some(vec![1, 2])), 3);
    assert_eq!(folder_size(&one, &None), 0);
    one.exists = false;
    assert!(scan_path(&one).is_none());
    assert_eq!(calculate_directory_size(&vec![u64::MAX, 1]), u64::MAX);
    let event = size_event(&one, 9, &Some("scan".to_string()));
    assert_eq!((event.folder_id.as_str(), event.size), ("a", 9));
    assert_eq!(event.scan_id.as_deref(), Some("scan"));
}

#[test]
fn merged_templates_are_complete() {
    let defaults = default_app_data_templates();
    let n = defaults.len();
    assert!(defaults.iter().any(|t| t.id == "cargo_home"));
    let (merged, changed) = merge_missing_default_templates(vec![
        template("mine", Some("D:\\m")),
        template("pnpm_store", None),
        template("Cargo_Home", Some("D:\\c")),
    ]);
    assert!(changed);
    assert_eq!(merged.len(), 1 + n);
    assert_eq!(merged[0].id, "mine");
    assert_eq!(merged[1].id, "Cargo_Home");
    assert!(!merged.iter().any(|t| t.id == "pnpm_store"));
    assert!(!merged.iter().any(|t| t.id == "cargo_home"));
}

#[test]
fn merging_twice_is_merging_once() {
    let (once, _) = merge_missing_default_templates(vec![template("mine", None)]);
    let n = once.len();
    let (twice, changed) = merge_missing_default_templates(once);
    assert!(!changed);
    assert_eq!(twice.len(), n);
}

#[test]
fn stored_templates_survive() {
    let mut templates = vec![template("zed_appdata", None), template("x", None)];
    assert!(remove_deprecated_app_data_templates(&mut templates));
    assert_eq!(templates.len(), 1);
    let n = default_app_data_templates().len();
    let (absent, write) = load_app_data_templates(StoredTemplates::Absent);
    assert_eq!((absent.len(), write), (n, true));
    let (read, write) = load_app_data_templates(StoredTemplates::Read(templates));
    assert_eq!((read.len(), write), (n + 1, true));
    assert_eq!(read[0].id, "x");
    assert_eq!(load_app_data_templates(StoredTemplates::Unreadable).0.len(), n);
}

#[test]
fn models_have_defaults() {
    assert!(is_false(&false) && !is_false(&true));
    assert_eq!(default_icon_id(), "folder");
    assert!(default_process_names().is_empty());
    assert_eq!(default_record_type(), MigrationRecordType::App);
    assert_eq!(LinkRecoveryImportResult::default().imported, 0);
    assert_eq!(MirrorImportResult::default().history_added, 0);
}
