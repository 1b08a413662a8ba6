use viap::app_manager::pre_uninstall::get_pre_uninstall_info;
use viap::app_manager::traces::{
    build_match_tokens, detect_system_traces, normalize_image_path, searches_below, trace_matches,
    ServiceFacts, TaskGroup, TraceFacts, MAX_TRACES,
};
use viap::app_manager::uninstall_report::{
    prune_reports_at, report_file_name, sanitize_report_slug, save_uninstall_report, ReportFile,
    UninstallReportInput, MAX_SLUG_LENGTH,
};
use viap::app_manager::uninstall_snapshot::{
    collect_registry_keys, collect_snapshot, collect_uninstall_entry_names, compute_diff,
    diff_names, diff_uninstall_snapshot, list_top_level_entries, summarize, CurrentState,
    ListedPlace, SnapshotFacts, SnapshotLocation, UninstallSnapshot,
};

const SYSTEM_ROOT: &str = r"C:\Windows";

#[test]
fn tokens_drop_generic_and_short_words() {
    let tokens = build_match_tokens("Adobe Acrobat Update Service x64");
    assert!(tokens.contains(&"adobe".to_string()));
    assert!(tokens.contains(&"acrobat".to_string()));
    assert!(!tokens.contains(&"update".to_string()));
    assert!(!tokens.contains(&"service".to_string()));
    assert!(!tokens.contains(&"x64".to_string()));
}

#[test]
fn matches_by_install_location_even_with_unrelated_name() {
    let tokens = build_match_tokens("Unrelated Name");
    let matched = trace_matches(
        "SomeVendorSvc",
        "Some Vendor Helper",
        Some(r#""C:\Program Files\SomeApp\svc.exe" -k netsvcs"#),
        &tokens,
        Some(r"C:\Program Files\SomeApp"),
        SYSTEM_ROOT,
    );
    assert!(matched, "可执行文件落在安装目录内时必须命中");
}

#[test]
fn places_end_at_components() {
    let lies_in = |image: &str, place: &str| {
        trace_matches("Svc", "Svc", Some(image), &Vec::new(), Some(place), SYSTEM_ROOT)
    };
    assert!(!lies_in(r"C:\Apps\Foo2\svc.exe", r"C:\Apps\Foo"));
    assert!(lies_in(r"c:\apps\foo\svc.exe", r"C:\Apps\Foo\"));
    assert!(lies_in(r"C:\Apps\Foo", r"C:\Apps\Foo"));
    assert!(!lies_in(r"C:\Apps\Foo\svc.exe", ""));
}

#[test]
fn matches_by_name_token_and_ignores_unrelated_services() {
    let tokens = build_match_tokens("Clash Verge");
    assert!(trace_matches(
        "clash_verge_service",
        "Clash Verge Service",
        Some(r"C:\Windows\System32\svchost.exe -k netsvcs"),
        &tokens,
        Some(r"D:\software\other\Clash Verge"),
        SYSTEM_ROOT,
    ));
    assert!(!trace_matches(
        "WSearch",
        "Windows Search",
        Some(r"C:\Windows\System32\SearchIndexer.exe"),
        &tokens,
        Some(r"D:\software\other\Clash Verge"),
        SYSTEM_ROOT,
    ));
}

#[test]
fn image_path_normalization_strips_quotes_prefix_and_arguments() {
    assert_eq!(
        normalize_image_path(r#""C:\Program Files\Some App\svc.exe" -k netsvcs"#, SYSTEM_ROOT),
        r"c:\program files\some app\svc.exe"
    );
    assert_eq!(
        normalize_image_path(r"\??\C:\Tools\agent.exe", SYSTEM_ROOT),
        r"c:\tools\agent.exe"
    );
    let system_root = r"C:\Windows";
    assert_eq!(
        normalize_image_path(r"\SystemRoot\System32\drivers\foo.sys", SYSTEM_ROOT),
        format!(r"{}\system32\drivers\foo.sys", system_root.to_lowercase())
    );
}

fn service(name: &str, display_name: &str, image_path: &str, service_type: u32) -> ServiceFacts {
    ServiceFacts {
        name: name.to_string(),
        display_name: display_name.to_string(),
        image_path: image_path.to_string(),
        service_type,
    }
}

fn trace_facts() -> TraceFacts {
    TraceFacts {
        system_root: SYSTEM_ROOT.to_string(),
        services: vec![
            service("verge_b", "Verge B", r"D:\v\b.exe", 16),
            service("other", "Other", r"D:\o\o.exe", 16),
            service("VERGE_A", "", r"D:\v\a.sys", 1),
        ],
        task_files: vec!["Clash/Verge task".to_string(), "Unrelated".to_string()],
        task_groups: vec![TaskGroup {
            prefix: r"\Vendor".to_string(),
            children: vec!["verge".to_string(), "none".to_string()],
        }],
    }
}

#[test]
fn traces_are_sorted_by_kind_and_name() {
    let traces = detect_system_traces("Clash Verge", None, &trace_facts());
    let listed: Vec<(&str, &str, &str)> = traces
        .iter()
        .map(|t| (t.kind.as_str(), t.name.as_str(), t.detail.as_str()))
        .collect();
    assert_eq!(
        listed,
        vec![
            ("driver", "VERGE_A", r"D:\v\a.sys"),
            ("service", "verge_b", r"Verge B · D:\v\b.exe"),
            ("task", r"\Clash\Verge task", "计划任务：应用卸载后仍可能被定期拉起"),
            ("task", r"\Vendor\verge", "计划任务：应用卸载后仍可能被定期拉起"),
        ]
    );
}

#[test]
fn nothing_to_go_by_finds_nothing() {
    assert!(detect_system_traces("The App", Some("  "), &trace_facts()).is_empty());
    assert_eq!(detect_system_traces("The App", Some(r"D:\v\"), &trace_facts()).len(), 2);
}

#[test]
fn report_of_traces_is_cut() {
    let mut facts = trace_facts();
    facts.task_files = (0..100).map(|i| format!("verge {}", i)).collect();
    assert_eq!(detect_system_traces("Clash Verge", None, &facts).len(), MAX_TRACES);
    assert!(searches_below(1));
    assert!(!searches_below(2));
}

#[test]
fn pre_uninstall_info_gathers_package_and_traces() {
    let info = get_pre_uninstall_info("Clash Verge", Some(""), &Ok(Vec::new()), &trace_facts());
    assert!(info.store_package.is_none());
    assert_eq!(info.system_traces.len(), 4);
}

#[test]
fn slug_is_filesystem_safe() {
    assert_eq!(sanitize_report_slug("Clash Verge"), "Clash_Verge");
    assert_eq!(sanitize_report_slug("微信 WeChat"), "微信_WeChat");
    assert_eq!(sanitize_report_slug(r"..\..\Windows\System32"), "Windows_System32");
    assert_eq!(sanitize_report_slug("***"), "app");
    assert_eq!(sanitize_report_slug(""), "app");
    assert_eq!(sanitize_report_slug(&"a".repeat(100)).chars().count(), MAX_SLUG_LENGTH);
    let cut = "a".repeat(MAX_SLUG_LENGTH - 2) + "_.b";
    assert_eq!(sanitize_report_slug(&cut), "a".repeat(MAX_SLUG_LENGTH - 2));
    let led = "_.".to_string() + &"b".repeat(MAX_SLUG_LENGTH + 1);
    assert_eq!(sanitize_report_slug(&led), "b".repeat(MAX_SLUG_LENGTH));
    assert_eq!(MAX_SLUG_LENGTH, 40);
    let chinese_name = "微信".repeat(40);
    let slug = sanitize_report_slug(&chinese_name);
    assert_eq!(slug.chars().count(), MAX_SLUG_LENGTH);
    assert!(slug.chars().all(|ch| ch == '微' || ch == '信'));
}

#[test]
fn report_files_are_named_by_application_and_time() {
    assert_eq!(report_file_name("Clash Verge", 1700000000123), "Clash_Verge-1700000000123.json");
}

fn report_file(path: &str, modified: i128) -> ReportFile {
    ReportFile { path: path.to_string(), is_file: true, modified }
}

#[test]
fn prune_keeps_only_the_newest_reports() {
    let mut files: Vec<ReportFile> = (0..5)
        .map(|index| report_file(&format!("app-{}.json", index), index as i128))
        .collect();
    files.push(report_file("keep.txt", 100));

    let pruned = prune_reports_at(files, 2);
    let names: Vec<&str> = pruned.iter().map(|f| f.path.as_str()).collect();
    assert_eq!(names, vec!["app-2.json", "app-1.json", "app-0.json"]);
    assert_eq!(prune_reports_at(vec![report_file("D:\\r\\a.JSON", 0)], 0).len(), 1);
    assert!(prune_reports_at(vec![report_file("D:\\r\\a.JSON", 0)], 1).is_empty());
}

fn report_input(app_name: &str) -> UninstallReportInput {
    UninstallReportInput {
        app_name: app_name.to_string(),
        install_location: r"D:\apps\Sample".to_string(),
        estimated_bytes: 1024,
        uninstall_freed_bytes: 512,
        cleanup_freed_bytes: 256,
        failed_items: vec![r"D:\apps\Sample\locked.dll".to_string()],
        scheduled_for_reboot: Vec::new(),
    }
}

fn empty_snapshot(app_name: &str) -> UninstallSnapshot {
    UninstallSnapshot {
        app_name: app_name.to_string(),
        install_location: String::new(),
        created_at: 7,
        locations: Vec::new(),
        registry_keys: Vec::new(),
        uninstall_entries: Vec::new(),
    }
}

#[test]
fn report_takes_the_snapshot_of_its_own_application_only() {
    let report = save_uninstall_report(
        report_input("Sample App"),
        5,
        Some(empty_snapshot("Sample App")),
        None,
    );
    assert_eq!(report.version, 1);
    assert_eq!(report.created_at, 5);
    assert_eq!(report.uninstall_freed_bytes + report.cleanup_freed_bytes, 768);
    assert_eq!(report.failed_items.len(), 1);
    assert!(report.snapshot.is_some());

    let diff = diff_uninstall_snapshot(None, &current_state());
    let other =
        save_uninstall_report(report_input("Other"), 5, Some(empty_snapshot("Sample App")), Some(diff));
    assert!(other.snapshot.is_none());
    assert!(other.diff.is_none());
}

fn strings(names: &[&str]) -> Vec<String> {
    names.iter().map(|name| name.to_string()).collect()
}

#[test]
fn diff_names_ignores_case_and_classifies_three_ways() {
    let before = vec!["Clash Verge".to_string(), "OldApp".to_string(), "Keep".to_string()];
    let after = vec!["clash verge".to_string(), "Keep".to_string(), "NewApp".to_string()];

    let (appeared, disappeared, remaining) = diff_names(&before, &after);
    assert_eq!(appeared, vec!["NewApp".to_string()]);
    assert_eq!(disappeared, vec!["OldApp".to_string()]);
    assert_eq!(remaining, vec!["Clash Verge".to_string(), "Keep".to_string()]);
}

#[test]
fn top_level_listing_skips_volatile_directories() {
    let entries = list_top_level_entries(&strings(&["RealApp", "Temp", "D3DSCache"]));
    assert_eq!(entries, vec!["RealApp".to_string()]);
    let sorted = list_top_level_entries(&strings(&["b", "a", "", "b"]));
    assert_eq!(sorted, strings(&["a", "b"]));
    assert_eq!(collect_uninstall_entry_names(&strings(&["temp", "b", "a"])), strings(&["a", "b", "temp"]));
}

fn current_state() -> CurrentState {
    CurrentState {
        places: Vec::new(),
        install_entries: Vec::new(),
        registry_keys: Vec::new(),
        uninstall_entries: Vec::new(),
    }
}

#[test]
fn snapshot_captures_install_dir_and_diff_detects_removal() {
    let facts = SnapshotFacts {
        now: 3,
        places: vec![ListedPlace {
            label: "ProgramData".to_string(),
            path: r"C:\ProgramData".to_string(),
            found: strings(&["x"]),
        }],
        install_found: Some(strings(&["bin", "SomeApp.exe"])),
        key_children: None,
        uninstall_names: strings(&["SomeApp"]),
    };
    let snapshot = collect_snapshot("SomeApp", Some(r" D:\SomeApp "), None, &facts);
    let install_group = snapshot
        .locations
        .iter()
        .find(|location| location.label == "安装目录")
        .expect("快照里应当包含安装目录");
    assert_eq!(install_group.path, r"D:\SomeApp");
    assert!(install_group.entries.contains(&"SomeApp.exe".to_string()));
    assert!(install_group.entries.contains(&"bin".to_string()));
    let summary = summarize(&snapshot);
    assert_eq!((summary.location_count, summary.entry_count), (2, 3));
    assert_eq!(summary.uninstall_entry_count, 1);

    let mut now = current_state();
    now.places.push(SnapshotLocation {
        label: "ProgramData".to_string(),
        path: r"C:\ProgramData".to_string(),
        entries: strings(&["x", "y"]),
    });
    now.install_entries = strings(&["bin"]);
    let diff = compute_diff(&snapshot, &now);
    assert!(diff.has_snapshot);
    let removed = diff
        .disappeared
        .iter()
        .find(|entry| entry.name == "SomeApp.exe")
        .expect("删除的文件应当出现在差异里");
    assert_eq!(removed.group, "安装目录");
    assert_eq!(removed.confidence, "certain");
    assert_eq!(diff.appeared.len(), 1);
    assert_eq!(diff.appeared[0].confidence, "uncertain");
    assert_eq!(diff.remaining.len(), 2);
}

#[test]
fn recorded_keys_need_a_hive() {
    let children = Some(strings(&["a"]));
    assert_eq!(
        collect_registry_keys(Some(r" HKEY_CURRENT_USER\Software\X "), &children),
        strings(&[r"HKCU\Software\X", r"HKCU\Software\X\a"])
    );
    assert!(collect_registry_keys(Some(r"Software\X"), &children).is_empty());
    assert!(collect_registry_keys(Some(r"HKLM\Software\X"), &None).is_empty());
    assert!(collect_registry_keys(None, &children).is_empty());
}

#[test]
fn without_a_snapshot_there_is_no_difference() {
    let diff = diff_uninstall_snapshot(None, &current_state());
    assert!(!diff.has_snapshot);
    assert_eq!(diff.created_at, 0);
    assert!(diff_uninstall_snapshot(Some(&empty_snapshot("x")), &current_state()).has_snapshot);
}
