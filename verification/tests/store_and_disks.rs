use viap::app_manager::appx::{
    build_remove_command, count_script, is_package_installed, is_valid_package_full_name,
    list_installed_packages, match_packages, normalize_for_match, package_full_name_from_location,
    parse_packages_json, resolve_package, AppxPackage, PackageJson, ScriptEnd,
};
use viap::app_manager::detector::{
    default_special_path, detect_chat_app_data, ensure_app_not_running, expected_process_names,
    feishu_candidates, folder_status, normalize_app_name, npm_prefix, resolve_wechat_save_path,
    special_folder_names, BaseDir, ChatPlaces, ProbedPath, QqInstall, WeChatPlace,
};
use serde_json::Value;
use viap::app_manager::disk_scan_policy::{is_system_mount, DiskFacts, DiskScanPolicy};

fn sample_packages() -> Vec<AppxPackage> {
    vec![
        AppxPackage {
            name: "Microsoft.WindowsCalculator".to_string(),
            package_full_name: "Microsoft.WindowsCalculator_11.2210.0.0_x64__8wekyb3d8bbwe"
                .to_string(),
            install_location: r"C:\Program Files\WindowsApps\Microsoft.WindowsCalculator_11.2210.0.0_x64__8wekyb3d8bbwe".to_string(),
        },
        AppxPackage {
            name: "SomeVendor.Tool".to_string(),
            package_full_name: "SomeVendor.Tool_1.0.0.0_x64__abcdefghij".to_string(),
            install_location: r"C:\Program Files\WindowsApps\SomeVendor.Tool_1.0.0.0_x64__abcdefghij".to_string(),
        },
    ]
}

#[test]
fn matches_by_windows_apps_install_location_first() {
    let packages = sample_packages();
    let location =
        r"C:\Program Files\WindowsApps\SomeVendor.Tool_1.0.0.0_x64__abcdefghij\app";
    let matched = match_packages(&packages, "完全无关的名字", Some(location));
    assert_eq!(matched.len(), 1);
    assert_eq!(matched[0].name, "SomeVendor.Tool");
}

#[test]
fn matches_by_normalized_name() {
    let packages = sample_packages();
    let matched = match_packages(&packages, "windows calculator", None);
    assert_eq!(matched.len(), 1);
    assert_eq!(matched[0].name, "Microsoft.WindowsCalculator");

    assert!(match_packages(&packages, "a", None).is_empty());
    assert!(match_packages(&packages, "unrelated-app", None).is_empty());
}

#[test]
fn rejects_unsafe_package_names_before_building_commands() {
    let command = build_remove_command("SomeVendor.Tool_1.0.0.0_x64__abcdefghij")
        .expect("合法包名应当生成命令");
    assert!(command.contains("Remove-AppxPackage"));
    assert!(command.contains("SomeVendor.Tool_1.0.0.0_x64__abcdefghij"));

    for unsafe_name in [
        "Tool'; Remove-Item C:\\ -Recurse; '",
        "Tool\" | rm",
        "Tool Name",
        "",
    ] {
        assert!(
            build_remove_command(unsafe_name).is_none(),
            "不合法包名不应生成命令: {}",
            unsafe_name
        );
    }
}

#[test]
fn remove_command_is_exact() {
    assert_eq!(
        build_remove_command("A.B_1-2").unwrap(),
        "powershell -NoProfile -NonInteractive -Command \"Get-AppxPackage -Package 'A.B_1-2' | Remove-AppxPackage\""
    );
    assert_eq!(count_script("A.B").unwrap(), "@(Get-AppxPackage -Package 'A.B').Count");
    assert!(count_script("A B").is_none());
}

#[test]
fn package_names_have_a_greatest_length() {
    assert!(is_valid_package_full_name(&"a".repeat(200)));
    assert!(!is_valid_package_full_name(&"a".repeat(201)));
    assert!(!is_valid_package_full_name("微信"));
}

fn package(value: &Value) -> Option<AppxPackage> {
    let field = |name: &str| value.get(name).and_then(|v| v.as_str()).map(|v| v.to_string());
    Some(AppxPackage {
        name: field("Name")?,
        package_full_name: field("PackageFullName")?,
        install_location: field("InstallLocation").unwrap_or_default(),
    })
}

fn read_packages(printed: &str) -> PackageJson {
    match serde_json::from_str::<Value>(printed) {
        Ok(Value::Array(list)) => PackageJson::List(list.iter().filter_map(package).collect()),
        Ok(value) => package(&value).map_or(PackageJson::Unreadable, PackageJson::Single),
        Err(_) => PackageJson::Unreadable,
    }
}

#[test]
fn parses_both_array_and_single_object_json() {
    let array = r#"[{"Name":"A.B","PackageFullName":"A.B_1.0.0.0_x64__z","InstallLocation":"C:\\x"}]"#;
    assert_eq!(parse_packages_json(read_packages(array)).len(), 1);

    let single = r#"{"Name":"A.B","PackageFullName":"A.B_1.0.0.0_x64__z","InstallLocation":"C:\\x"}"#;
    let parsed = parse_packages_json(read_packages(single));
    assert_eq!(parsed.len(), 1);
    assert_eq!(parsed[0].package_full_name, "A.B_1.0.0.0_x64__z");

    assert!(parse_packages_json(read_packages("")).is_empty());
    assert!(parse_packages_json(read_packages("not json")).is_empty());
}

#[test]
fn package_lists_come_in_three_forms() {
    assert_eq!(parse_packages_json(PackageJson::List(sample_packages())).len(), 2);
    let single = sample_packages().remove(1);
    let parsed = parse_packages_json(PackageJson::Single(single));
    assert_eq!(parsed.len(), 1);
    assert_eq!(parsed[0].name, "SomeVendor.Tool");
    assert!(parse_packages_json(PackageJson::Unreadable).is_empty());
}

#[test]
fn listing_packages_reports_why_it_failed() {
    assert_eq!(list_installed_packages(None).unwrap().len(), 0);
    let not_started = list_installed_packages(Some(ScriptEnd::NotStarted("x".to_string())));
    assert_eq!(not_started.unwrap_err(), "调用 PowerShell 失败: x");
    let silent = list_installed_packages(Some(ScriptEnd::Failed { stderr: "  ".to_string() }));
    assert_eq!(silent.unwrap_err(), "PowerShell 执行失败");
    let loud = list_installed_packages(Some(ScriptEnd::Failed { stderr: " bad \n".to_string() }));
    assert_eq!(loud.unwrap_err(), "bad");
    let listed =
        list_installed_packages(Some(ScriptEnd::Printed(PackageJson::List(sample_packages()))));
    assert_eq!(listed.unwrap().len(), 2);
}

#[test]
fn only_a_single_match_is_resolved() {
    let listed = Ok(sample_packages());
    assert_eq!(
        resolve_package("windows calculator", None, &listed).unwrap().name,
        "Microsoft.WindowsCalculator"
    );
    assert!(resolve_package("unrelated-app", None, &listed).is_none());
    let mut twice = sample_packages();
    twice.extend(sample_packages());
    assert!(resolve_package("windows calculator", None, &Ok(twice)).is_none());
    assert!(resolve_package("windows calculator", None, &Err("x".to_string())).is_none());
}

#[test]
fn package_folder_needs_a_part_behind_it() {
    assert_eq!(
        package_full_name_from_location(r"C:\windowsapps\\Pkg/app").unwrap(),
        "Pkg"
    );
    assert!(package_full_name_from_location(r"C:\WindowsApps\").is_none());
    assert!(package_full_name_from_location(r"C:\Apps\x").is_none());
}

#[test]
fn names_are_compared_by_plain_characters() {
    assert_eq!(normalize_for_match("Some-App_2.0 微信"), "someapp20");
}

#[test]
fn installed_packages_are_counted() {
    assert!(is_package_installed("A.B", &Some(" 1\r\n".to_string())));
    assert!(!is_package_installed("A.B", &Some("0".to_string())));
    assert!(!is_package_installed("A.B", &Some("many".to_string())));
    assert!(!is_package_installed("A.B", &None));
    assert!(!is_package_installed("A B", &Some("1".to_string())));
    assert!(!is_package_installed("A.B", &Some("4294967296".to_string())));
}

#[test]
fn path_matching_is_case_insensitive_and_component_aware() {
    let policy = DiskScanPolicy {
        deferred_hdd_mounts: vec!["D:\\software".to_string()],
    };

    assert!(policy.should_defer_path("d:\\software\\app.exe"));
    assert!(policy.should_defer_path("D:\\software"));
    assert!(!policy.should_defer_path("D:\\software2"));
}

#[test]
fn system_mount_is_not_classified_as_non_system_mount() {
    assert!(is_system_mount("C:\\"));
    assert!(!is_system_mount("D:\\"));
}

#[test]
fn only_a_cold_start_defers_disks() {
    let disk = |mount: &str, is_hdd| DiskFacts { mount: mount.to_string(), is_hdd };
    let mounts = vec![
        disk("E:/", true),
        disk("C:\\", true),
        disk("F:\\", false),
        disk("D:\\", true),
        disk("E:/", true),
        disk("e:\\", true),
    ];
    let cold = DiskScanPolicy::for_scan(true, 59, &mounts);
    assert_eq!(cold.deferred_mount_labels(), vec!["D:".to_string(), "E:".to_string()]);
    assert!(cold.has_deferred_mounts());
    assert!(cold.should_defer_path("e:\\x"));
    assert!(cold.should_defer_path("E:\\x\\y/"));
    assert!(!cold.should_defer_path("c:\\x"));
    assert!(!cold.should_defer_path("f:\\x"));
    for path in ["D:\\A b", "d:/a B", "D:\\a b\\\\\\", "D:\\A b\\deeper", "D:\\A b\\\\"] {
        assert!(cold.should_defer_path(path));
        assert!(!DiskScanPolicy::default().should_defer_path(path));
    }
    assert!(!DiskScanPolicy::for_scan(true, 60, &mounts).has_deferred_mounts());
    assert!(!DiskScanPolicy::for_scan(false, 0, &mounts).has_deferred_mounts());
    assert!(!DiskScanPolicy::default().has_deferred_mounts());
}

fn probed(path: &str, exists: bool, is_dir: bool) -> ProbedPath {
    ProbedPath { path: path.to_string(), exists, is_dir }
}

fn no_places() -> ChatPlaces {
    ChatPlaces {
        wechat: None,
        tencent_files: None,
        qq_installs: Vec::new(),
        feishu: Vec::new(),
        usual: None,
    }
}

#[test]
fn chat_data_are_detected_by_application() {
    let mut places = no_places();
    places.wechat = Some(probed("w", true, true));
    places.usual = Some(probed("u", true, false));
    places.feishu = vec![probed("f1", true, false), probed("f2", true, true)];
    places.qq_installs = vec![
        QqInstall {
            value: " \"\" ".to_string(),
            files: probed("a", true, true),
            install: probed("b", true, true),
        },
        QqInstall {
            value: "Q".to_string(),
            files: probed("c", false, false),
            install: probed("d", true, true),
        },
    ];
    assert_eq!(detect_chat_app_data(" WeChat ", Some(&places)).unwrap(), "w");
    assert_eq!(detect_chat_app_data("TIM", Some(&places)).unwrap(), "d");
    assert_eq!(detect_chat_app_data("lark", Some(&places)).unwrap(), "f2");
    assert!(detect_chat_app_data("dingtalk", Some(&places)).is_none());
    places.tencent_files = Some(probed("t", true, false));
    assert_eq!(detect_chat_app_data("qq", Some(&places)).unwrap(), "t");
    assert!(detect_chat_app_data("wechat", None).is_none());
}

#[test]
fn wechat_setting_has_three_readings() {
    assert!(matches!(resolve_wechat_save_path(" \"\" "), WeChatPlace::Unknown));
    match resolve_wechat_save_path("MyDocument:\\a\\b") {
        WeChatPlace::Below(place) => {
            assert_eq!(place.base, BaseDir::Documents);
            assert_eq!(place.below.unwrap(), "a\\b");
        }
        _ => panic!("a path below the documents"),
    }
    match resolve_wechat_save_path("MyDocument:") {
        WeChatPlace::Below(place) => assert!(place.below.is_none()),
        _ => panic!("the documents themselves"),
    }
    match resolve_wechat_save_path("\"D:\\w\"") {
        WeChatPlace::Path(path) => assert_eq!(path, "D:\\w"),
        _ => panic!("a path"),
    }
}

#[test]
fn usual_places_are_tabled() {
    let chrome = default_special_path("chrome_cache").unwrap();
    assert_eq!(chrome.base, BaseDir::LocalData);
    assert_eq!(chrome.below.unwrap(), r"Google\Chrome\User Data\Default\Cache");
    assert!(default_special_path("npm_global").is_none());
    let other = default_special_path("else").unwrap();
    assert_eq!(other.base, BaseDir::Home);
    assert!(other.below.is_none());
    assert_eq!(feishu_candidates()[3].below.as_deref(), Some("Feishu"));
    assert_eq!(special_folder_names().len(), 10);
    assert_eq!(normalize_app_name(" QQ "), "qq");
}

#[test]
fn npm_prefix_may_be_undefined() {
    assert_eq!(npm_prefix(&Some(" D:\\npm\n".to_string())).unwrap(), "D:\\npm");
    assert!(npm_prefix(&Some("undefined\n".to_string())).is_none());
    assert!(npm_prefix(&Some(" ".to_string())).is_none());
    assert!(npm_prefix(&None).is_none());
}

#[test]
fn folder_status_falls_back_to_the_usual_place() {
    let found = folder_status("qq", &Some("a".to_string()), &Some("b".to_string()));
    assert_eq!((found.current_path.as_str(), found.is_detected), ("a", true));
    let usual = folder_status("qq", &None, &Some("b".to_string()));
    assert_eq!((usual.current_path.as_str(), usual.is_detected), ("b", false));
    assert_eq!(folder_status("qq", &None, &None).current_path, "");
}

#[test]
fn running_application_blocks_moving_its_data() {
    assert_eq!(expected_process_names("Lark"), vec!["feishu.exe", "lark.exe"]);
    let processes = vec![
        "Lark.exe".to_string(),
        "other.exe".to_string(),
        "Feishu.exe".to_string(),
        "LARK.EXE".to_string(),
    ];
    assert_eq!(
        ensure_app_not_running("feishu", &processes).unwrap_err(),
        "检测到应用仍在运行，请先关闭后再迁移: feishu.exe, lark.exe"
    );
    assert!(ensure_app_not_running("qq", &processes).is_ok());
    assert!(ensure_app_not_running("npm_global", &processes).is_ok());
}
