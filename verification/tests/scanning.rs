use viap::app_manager::cache::{
    get_cached, get_or_scan, invalidate, on_app_migrated, on_app_uninstalled, refresh, reuse_icons,
    set_cache, AppCache,
};
use viap::app_manager::lnk::parse_lnk_target;
use viap::app_manager::locate::{
    command_directory, command_path, derive_install_location_from_icon,
    extract_dir_from_command_string, is_shared_directory, named_files, Derivation, NamedFileProbe, NamedFiles,
};
use viap::app_manager::scan_rules::{
    has_version_pattern_in_stem, is_blacklisted_path, is_bundled_runtime_dir,
    is_container_directory, is_dev_directory, is_installer_like_exe, is_skippable_dir,
    is_supporting_subdir, is_system_component, is_system_path, normalize_path,
    validate_install_dir, DirItem,
};
use viap::app_manager::scanner::{
    accepts_found_app, app_dir_names, clean_location, collect_filesystem_roots,
    dedup_subdirectory_apps, find_fallback_exe, icon_file_of, is_other_drive, maybe_push_app,
    merge_new_apps, resolve_install_location_from_registry, resolve_lnk_file,
    scan_directory_constrained, scan_registry_deep, scan_registry_path, should_read_directory,
    sort_by_name, validate_display_icon, walk_step, DriveFacts, FileFacts, FoundApp,
    RegistryEntry, ShortcutProbe, UsualPlaces, WalkStep,
};
use viap::app_manager::snapshot::{
    attach_icon_urls, decode_icon_path, encode_icon_path, icon_url_for_path, load_snapshot,
    save_snapshot, AppSnapshot,
};
use viap::app_manager::streaming::{
    cached_size, check_process_locks, get_app_size, icon_update, kept_size, refresh_registry,
    scan_all, scan_all_streaming, scan_incremental, size_batches, size_order,
    IncrementalScan, ScanEvent, ScanStage, SizeQuestion,
};
use viap::app_manager::survey::{
    best_candidate, directory_looks_like_app, match_names, score_signals, survey_directory, NameMatchKind,
};
use viap::migration::ProcessInfo;
use viap::models::InstalledApp;

fn texts(names: &[&str]) -> Vec<String> {
    names.iter().map(|name| name.to_string()).collect()
}

fn text(s: &str) -> Option<String> {
    Some(s.to_string())
}

fn app(name: &str, location: &str) -> InstalledApp {
    InstalledApp {
        display_name: name.to_string(),
        install_location: location.to_string(),
        display_icon: String::new(),
        estimated_size: 0,
        icon_base64: String::new(),
        icon_url: String::new(),
        registry_path: String::new(),
        publisher: String::new(),
    }
}

fn names(apps: &Vec<InstalledApp>) -> Vec<String> {
    apps.iter().map(|a| a.display_name.clone()).collect()
}

fn item(path: &str, is_directory: bool) -> DirItem {
    DirItem { path: path.to_string(), is_directory, is_file: !is_directory, random_stem: false }
}

#[test]
fn test_validate_install_dir_rejects_lone_exe() {
    let exe = item("T:\\viap_test_lone_exe\\AradIns.exe", false);
    let path = exe.path.clone();
    assert!(!validate_install_dir("T:\\viap_test_lone_exe", &path, &Some(vec![exe])));
}

#[test]
fn test_validate_install_dir_accepts_app_with_dll() {
    let exe = item("T:\\viap_test_app_with_dll\\MyApp.exe", false);
    let dll = item("T:\\viap_test_app_with_dll\\helper.dll", false);
    let path = exe.path.clone();
    assert!(validate_install_dir("T:\\viap_test_app_with_dll", &path, &Some(vec![exe, dll])));
}

#[test]
fn install_directories_bear_the_name_of_their_program() {
    assert!(validate_install_dir("T:\\MyApp 2", "T:\\MyApp 2\\myapp.exe", &None));
    assert!(!validate_install_dir("T:\\", "T:\\myapp.exe", &None));
    let data = item("T:\\a\\data", true);
    assert!(validate_install_dir("T:\\zz", "T:\\zz\\myapp.exe", &Some(vec![data])));
}

#[test]
fn names_are_recognised() {
    assert_eq!(normalize_path(" \"C:\\Apps\\\" "), "c:\\apps");
    assert!(is_installer_like_exe("foo-setup.exe"));
    assert!(is_installer_like_exe("unins000.exe"));
    assert!(is_installer_like_exe("foo_x64.exe"));
    assert!(is_installer_like_exe("foo-1.2.exe"));
    assert!(!is_installer_like_exe("foo.exe"));
    assert!(has_version_pattern_in_stem("foo v2"));
    assert!(has_version_pattern_in_stem("vivo_v2"));
    assert!(has_version_pattern_in_stem("foo2024"));
    assert!(!has_version_pattern_in_stem("vista"));
    assert!(is_dev_directory("Node_Modules"));
    assert!(is_bundled_runtime_dir("JBR"));
    assert!(is_skippable_dir("Temp"));
    assert!(!is_skippable_dir("Games"));
    assert!(is_supporting_subdir("Locales"));
    assert!(is_system_component("KB5001234"));
    assert!(!is_system_component("KBar"));
    assert!(is_system_component("Microsoft Visual C++ 2019"));
    assert!(is_system_path("C:\\Windows\\System32\\x"));
    assert!(is_blacklisted_path("C:\\Windows.old", &None));
    assert!(is_blacklisted_path("D:\\T\\x", &text("D:\\T\\")));
    assert!(!is_blacklisted_path("D:\\Games", &None));
}

#[test]
fn containers_hold_several_applications() {
    assert!(is_container_directory("D:\\"));
    assert!(is_container_directory("C:\\Users\\me\\AppData\\Local\\"));
    assert!(is_container_directory("C:\\ProgramData"));
    assert!(is_container_directory("foo"));
    assert!(!is_container_directory(".\\foo"));
    assert!(!is_container_directory("C:\\Program Files\\Foo"));
}

#[test]
fn directories_are_surveyed() {
    let items = vec![
        item("D:\\a\\foo.exe", false),
        item("D:\\a\\setup.exe", false),
        item("D:\\a\\x.dll", false),
        item("D:\\a\\locales", true),
    ];
    let survey = survey_directory(&items);
    assert_eq!(survey.candidates.len(), 1);
    assert_eq!(survey.candidates[0].exe_path, "D:\\a\\foo.exe");
    assert_eq!(survey.exe_count, 2);
    assert!(survey.has_dll && survey.has_supporting_subdirs && survey.has_non_installer_exe);
    assert!(!survey.has_config && !survey.has_launcher);
    assert!(!survey.is_ruled_out("a"));
    let lone = survey_directory(&vec![item("D:\\d\\setup.exe", false)]);
    assert!(lone.is_ruled_out("d"));
    let download =
        survey_directory(&vec![item("D:\\downloads\\foo.exe", false)]);
    assert!(download.is_ruled_out("downloads"));
    assert!(!download.is_ruled_out("foo"));
    let signals = score_signals(&survey, &survey.candidates[0], "foo", &text("D:\\a"));
    assert_eq!(signals.name_match, NameMatchKind::Exact);
    assert!(signals.has_dll && signals.several_exes);
    assert_eq!((signals.digit_count, signals.stem_bytes), (0, 3));
}

#[test]
fn best_candidates_reach_the_threshold() {
    assert_eq!(match_names("Foo", "foobar"), NameMatchKind::Contains);
    assert_eq!(match_names("Foo", "bar"), NameMatchKind::Unrelated);
    assert_eq!(best_candidate(&vec![3, 9, 9], 5), Some(1));
    assert_eq!(best_candidate(&vec![3, 4], 5), None);
    assert_eq!(best_candidate(&Vec::new(), 1), None);
    let survey = survey_directory(&vec![
        item("D:\\a\\foo.exe", false),
        item("D:\\a\\bar.exe", false),
    ]);
    let best = |name: &str, ranks| directory_looks_like_app(&survey, name, &ranks, 5);
    assert_eq!(best("a", vec![3, 9]), text("D:\\a\\bar.exe"));
    assert_eq!(best("a", vec![7, 7]), text("D:\\a\\foo.exe"));
    assert_eq!(best("a", vec![3, 4]), None);
    assert_eq!(best("downloads", vec![3, 9]), None);
}

fn shortcut(path: &[u8], flags: u8, info_flags: u8) -> Vec<u8> {
    let mut data = vec![0u8; 76];
    let class: [u8; 16] = [
        0x01, 0x14, 0x02, 0x00, 0x00, 0x00, 0x00, 0x00, 0xC0, 0x00, 0x00, 0x00, 0x00, 0x00, 0x00,
        0x46,
    ];
    data[..16].copy_from_slice(&class);
    data[0x14] = flags;
    if flags % 2 == 1 {
        data.extend_from_slice(&[4, 0, 9, 9]);
    }
    let size = 28 + path.len() as u32 + 1;
    data.extend_from_slice(&size.to_le_bytes());
    data.extend_from_slice(&28u32.to_le_bytes());
    data.extend_from_slice(&[info_flags, 0, 0, 0]);
    data.extend_from_slice(&0u32.to_le_bytes());
    data.extend_from_slice(&28u32.to_le_bytes());
    data.extend_from_slice(&[0; 8]);
    data.extend_from_slice(path);
    data.push(0);
    data
}

#[test]
fn shortcut_targets_are_read() {
    assert_eq!(parse_lnk_target(&shortcut(b"C:\\a.exe", 2, 1)).unwrap(), "C:\\a.exe");
    assert_eq!(
        parse_lnk_target(&shortcut("D:\\微信.exe".as_bytes(), 2, 1)).unwrap(),
        "D:\\微信.exe"
    );
    assert!(parse_lnk_target(&shortcut(b"C:\\a.exe", 2, 0)).is_none());
    assert!(parse_lnk_target(&shortcut(b"C:\\a.exe", 0, 1)).is_none());
    assert!(parse_lnk_target(&shortcut(&[0xff, 0xfe], 2, 1)).is_none());
    assert!(parse_lnk_target(&vec![0; 10]).is_none());
    let mut other = shortcut(b"C:\\a.exe", 2, 1);
    other[0] = 0;
    assert!(parse_lnk_target(&other).is_none());
}

#[test]
fn commands_lead_to_directories() {
    assert_eq!(command_path("\"C:\\A\\un.exe\" /S").unwrap(), "C:\\A\\un.exe");
    assert_eq!(command_path("C:\\A B\\un.exe -q").unwrap(), "C:\\A B\\un.exe");
    assert!(command_path("msiexec /x").is_none());
    assert!(is_shared_directory("C:\\Windows\\System32"));
    assert_eq!(extract_dir_from_command_string(&text("C:\\A\\"), true).unwrap(), "C:\\A");
    assert!(extract_dir_from_command_string(&text("C:\\A"), false).is_none());
    assert!(extract_dir_from_command_string(&text("C:\\Common Files\\x"), true).is_none());
    assert!(matches!(named_files(" "), NamedFiles::Nothing));
    match named_files("\"C:\\a b.exe\",0") {
        NamedFiles::Quoted(file) => assert_eq!(file, "C:\\a b.exe"),
        other => panic!("{:?}", other),
    }
    match named_files("a b,0") {
        NamedFiles::Words(files) => assert_eq!(files, texts(&["a b", "a"])),
        other => panic!("{:?}", other),
    }
}

#[test]
fn icons_lead_to_directories() {
    let probe = |exists, is_file, is_home| NamedFileProbe {
        file: "D:\\Apps\\Foo\\foo.exe".to_string(),
        exists,
        is_file,
        is_home,
    };
    match derive_install_location_from_icon(&probe(true, true, true)) {
        Derivation::Directory(dir) => assert_eq!(dir, "D:\\Apps\\Foo"),
        other => panic!("{:?}", other),
    }
    assert!(matches!(
        derive_install_location_from_icon(&probe(true, true, false)),
        Derivation::ReadAsCommand
    ));
    assert!(matches!(
        derive_install_location_from_icon(&probe(false, true, true)),
        Derivation::ReadAsCommand
    ));
    let mut shared = probe(true, true, true);
    shared.file = "C:\\Windows\\System32\\foo.exe".to_string();
    assert!(matches!(derive_install_location_from_icon(&shared), Derivation::Nowhere));
    let mut directory = probe(true, false, false);
    directory.file = "D:\\Apps\\Foo\\".to_string();
    match derive_install_location_from_icon(&directory) {
        Derivation::Directory(dir) => assert_eq!(dir, "D:\\Apps\\Foo"),
        other => panic!("{:?}", other),
    }
    assert_eq!(command_directory("D:\\a\\un.exe", false).as_deref(), Some("D:\\a"));
    assert_eq!(command_directory("D:\\a\\un", false).as_deref(), Some("D:\\a\\un"));
    assert_eq!(command_directory("D:\\a\\un", true).as_deref(), Some("D:\\a"));
}

#[test]
fn applications_inside_others_are_dropped() {
    let mut apps = vec![
        app("inner", "D:\\Foo\\bin"),
        app("next", "D:\\Foo2"),
        app("outer", "d:\\foo\\"),
    ];
    dedup_subdirectory_apps(&mut apps);
    assert_eq!(names(&apps), texts(&["outer", "next"]));
    let sorted = sort_by_name(vec![app("b", "1"), app("A", "2"), app("B", "3")]);
    assert_eq!(names(&sorted), texts(&["A", "b", "B"]));
}

#[test]
fn registry_locations_are_resolved() {
    assert_eq!(clean_location(" \"D:\\Foo\\\" "), "D:\\Foo");
    let icon = text("D:\\Icon\\");
    let tool = text("D:\\Tool");
    assert_eq!(resolve_install_location_from_registry("D:\\A\\B\\", &icon, &tool), "D:\\A\\B");
    assert_eq!(resolve_install_location_from_registry("", &icon, &tool), "D:\\Icon");
    assert_eq!(resolve_install_location_from_registry("D:\\", &None, &tool), "D:\\Tool");
    assert_eq!(resolve_install_location_from_registry("", &None, &None), "");
    assert_eq!(icon_file_of("\"C:\\a.exe\",0"), "C:\\a.exe");
    assert_eq!(validate_display_icon("C:\\a.exe,0", true), "C:\\a.exe,0");
    assert_eq!(validate_display_icon("C:\\a.exe,0", false), "");
}

fn registry_entry(name: &str, location: &str, exists: bool) -> RegistryEntry {
    RegistryEntry {
        hive: "HKLM".to_string(),
        base_path: "SOFTWARE\\U".to_string(),
        subkey: "foo".to_string(),
        display_name: name.to_string(),
        install_location: location.to_string(),
        location_exists: exists,
        location_is_link: false,
        display_icon: "D:\\a.ico".to_string(),
        icon_exists: false,
        publisher: "P".to_string(),
        estimated_size: 7,
    }
}

#[test]
fn registry_entries_become_applications() {
    let found = scan_registry_path(registry_entry("Foo", "D:\\A\\Foo\\", true)).unwrap();
    assert_eq!(found.install_location, "D:\\A\\Foo");
    assert_eq!(found.display_icon, "");
    assert_eq!(found.registry_path, "HKLM\\SOFTWARE\\U\\foo");
    assert_eq!(found.estimated_size, 7);
    assert!(scan_registry_path(registry_entry("KB123456", "D:\\A\\Foo", true)).is_none());
    assert!(scan_registry_path(registry_entry("Foo", "D:\\A\\Foo", false)).is_none());
    assert!(scan_registry_path(registry_entry("Foo", "D:\\WindowsApps\\Foo", true)).is_none());
    assert!(scan_registry_path(registry_entry("", "D:\\A\\Foo", true)).is_none());
    let apps = scan_registry_deep(vec![
        app("b", "D:\\x"),
        app("b", "d:\\X\\"),
        app("a", "D:\\x\\y"),
    ]);
    assert!(names(&apps).contains(&"b".to_string()));
    assert_eq!(apps.iter().filter(|a| a.display_name == "b").count(), 1);
}

fn shortcut_probe() -> ShortcutProbe {
    ShortcutProbe {
        target: "D:\\A\\Foo\\foo.exe".to_string(),
        target_exists: true,
        is_home: true,
        shortcut: "C:\\Users\\me\\Desktop\\Foo!.lnk".to_string(),
    }
}

#[test]
fn shortcuts_become_applications() {
    let found = resolve_lnk_file(shortcut_probe(), &Vec::new()).unwrap();
    assert_eq!(found.display_name, "Foo!");
    assert_eq!(found.install_location, "D:\\A\\Foo");
    assert_eq!(found.display_icon, "D:\\A\\Foo\\foo.exe");
    assert!(resolve_lnk_file(shortcut_probe(), &texts(&["d:\\a\\foo"])).is_none());
    let mut away = shortcut_probe();
    away.is_home = false;
    assert!(resolve_lnk_file(away, &Vec::new()).is_none());
    let mut installer = shortcut_probe();
    installer.target = "D:\\A\\Foo\\Setup.exe".to_string();
    assert!(resolve_lnk_file(installer, &Vec::new()).is_none());
    let mut document = shortcut_probe();
    document.target = "D:\\A\\Foo\\foo.txt".to_string();
    assert!(resolve_lnk_file(document, &Vec::new()).is_none());
    let mut unnamed = shortcut_probe();
    unnamed.shortcut = String::new();
    assert_eq!(resolve_lnk_file(unnamed, &Vec::new()).unwrap().display_name, "foo");
}

#[test]
fn new_applications_are_merged_once() {
    let merged = merge_new_apps(
        vec![app("a", "D:\\a"), app("b", "D:\\b"), app("c", "d:\\A\\")],
        &texts(&["d:\\b"]),
    );
    assert_eq!(names(&merged), texts(&["a"]));
}

#[test]
fn directories_are_read_to_a_depth() {
    assert!(should_read_directory("D:\\Games", 2, 2, &None, &None));
    assert!(!should_read_directory("D:\\Games", 3, 2, &None, &None));
    let registered = text("D:\\Apps");
    assert!(should_read_directory("D:\\Apps\\a\\b\\c", 1, 2, &registered, &None));
    assert!(!should_read_directory("D:\\Apps\\a\\b\\c\\d", 1, 2, &registered, &None));
    assert!(should_read_directory("E:\\Apps\\a\\b\\c\\d", 1, 2, &registered, &None));
    let skipped = "D:\\installshield installation information";
    assert!(!should_read_directory(skipped, 1, 2, &None, &None));
    assert!(!should_read_directory("D:\\$Recycle.Bin", 1, 2, &None, &None));
    assert!(!should_read_directory("D:\\x\\Temp", 1, 2, &None, &None));
    assert!(is_other_drive("D:\\") && !is_other_drive("C:\\"));
    assert!(!app_dir_names().is_empty());
}

#[test]
fn found_applications_are_pushed_once() {
    let found = FoundApp {
        directory: "D:\\Games\\Foo".to_string(),
        exe_path: "D:\\Games\\Foo\\foo.exe".to_string(),
        is_link: false,
    };
    let known: Vec<String> = Vec::new();
    assert!(accepts_found_app(&found, &known));
    assert!(accepts_found_app(&found, &texts(&["d:\\games\\foo"])));
    let mut link = FoundApp { is_link: true, ..found };
    assert!(accepts_found_app(&link, &known));
    assert!(!accepts_found_app(&link, &texts(&["d:\\games\\foo"])));
    link.exe_path = "D:\\Games\\Foo\\foo2024.exe".to_string();
    assert!(!accepts_found_app(&link, &known));
    let exe_path = "D:\\Games\\Foo\\foo.exe".to_string();
    let found = FoundApp { exe_path, is_link: false, ..link };
    let mut seen: Vec<String> = Vec::new();
    let mut out: Vec<InstalledApp> = Vec::new();
    maybe_push_app(&found, &known, &mut seen, &mut out);
    maybe_push_app(&found, &known, &mut seen, &mut out);
    assert_eq!(names(&out), texts(&["foo"]));
    assert_eq!(out[0].display_icon, "D:\\Games\\Foo\\foo.exe");
}

#[test]
fn fallback_icons_come_from_executables() {
    let file = |path: &str, is_file| FileFacts { path: path.to_string(), is_file };
    let files = vec![file("a.exe", false), file("b.dll", true), file("D:\\c.EXE", true)];
    assert_eq!(find_fallback_exe("D:\\A\\Foo", true, &files).unwrap(), "D:\\c.EXE");
    assert!(find_fallback_exe("D:\\A\\Foo", false, &files).is_none());
    assert!(find_fallback_exe("D:\\", true, &files).is_none());
}

#[test]
fn icon_paths_are_read_back() {
    assert_eq!(encode_icon_path("C:\\微"), "433a5ce5beae");
    for path in ["C:\\a b.exe,0", "D:\\微信\\x.ico"] {
        assert_eq!(decode_icon_path(&encode_icon_path(path)).unwrap(), path);
    }
    assert_eq!(decode_icon_path(" /4142 ").unwrap(), "AB");
    assert!(decode_icon_path("").is_none());
    assert!(decode_icon_path("4").is_none());
    assert!(decode_icon_path("zz").is_none());
    assert!(decode_icon_path("ff").is_none());
    assert_eq!(icon_url_for_path("A"), "http://viap-icon.localhost/41");
    assert_eq!(icon_url_for_path(" "), "");
}

#[test]
fn snapshots_keep_applications_without_icons() {
    let mut one = app("a", "D:\\a");
    one.display_icon = "A".to_string();
    one.icon_base64 = "data".to_string();
    let stored = save_snapshot(&vec![one]);
    assert_eq!(stored.version, 1);
    assert_eq!(stored.apps[0].icon_base64, "");
    assert_eq!(stored.apps[0].icon_url, "http://viap-icon.localhost/41");
    assert_eq!(load_snapshot(stored).unwrap()[0].display_name, "a");
    assert!(load_snapshot(AppSnapshot { version: 2, apps: vec![app("a", "")] }).is_none());
    assert!(load_snapshot(AppSnapshot { version: 1, apps: Vec::new() }).is_none());
    let mut old = vec![app("a", "")];
    old[0].display_icon = "A".to_string();
    old[0].icon_url = "viap-icon://x".to_string();
    attach_icon_urls(&mut old);
    assert_eq!(old[0].icon_url, "http://viap-icon.localhost/41");
}

#[test]
fn caches_are_filled_and_emptied() {
    let mut cache = AppCache::new(5);
    assert!(get_cached(&cache).is_none());
    set_cache(&mut cache, vec![app("a", "D:\\a"), app("b", "D:\\b")], 7);
    assert_eq!(cache.last_scan_time, 7);
    assert_eq!(get_cached(&cache).unwrap().len(), 2);
    on_app_uninstalled(&mut cache, "D:\\a");
    assert_eq!(names(&get_cached(&cache).unwrap()), texts(&["b"]));
    on_app_migrated(&mut cache);
    assert!(!cache.is_valid());
    let again = get_or_scan(&mut cache, Ok(vec![app("c", "D:\\c")]), vec![app("d", "")], 9).unwrap();
    assert_eq!(names(&again), texts(&["c", "d"]));
    let kept = get_or_scan(&mut cache, Err("x".to_string()), Vec::new(), 10).unwrap();
    assert_eq!(names(&kept), texts(&["c", "d"]));
    assert_eq!(refresh(&mut cache, Err("x".to_string()), Vec::new(), 11).unwrap_err(), "x");
    assert!(!cache.is_valid());
    invalidate(&mut cache);
    assert_eq!(cache.last_scan_time, 9);
}

#[test]
fn icons_are_reused() {
    let mut known = app("a", "D:\\a");
    known.icon_base64 = "data".to_string();
    let fresh = reuse_icons(vec![app("a", "D:\\a"), app("b", "D:\\b")], &vec![known]);
    assert_eq!(fresh[0].icon_base64, "data");
    assert_eq!(fresh[1].icon_base64, "");
}

#[test]
fn streaming_reports_each_source() {
    let mut cache = AppCache::new(0);
    let (mut scan, stored) = scan_all_streaming(true, Some(vec![app("s", "D:\\s")]));
    assert_eq!(stored.unwrap().phase, "snapshot");
    let event = ScanEvent::RegistryRead { apps: vec![app("b", "D:\\b")] };
    let first = scan.advance(event, &mut cache).unwrap();
    assert_eq!((first.phase, first.total_count), ("tier1", 1));
    let event = ScanEvent::LinksFollowed { targets: texts(&["E:\\B\\"]) };
    assert!(scan.advance(event, &mut cache).is_none());
    assert_eq!(scan.known, texts(&["d:\\b", "e:\\b"]));
    let event = ScanEvent::ShortcutsRead { apps: vec![app("a", "D:\\a")] };
    let second = scan.advance(event, &mut cache).unwrap();
    assert_eq!((second.phase, second.apps.len(), second.total_count), ("tier2", 1, 2));
    assert!(scan.skips_filesystem(59));
    assert!(!scan.skips_filesystem(60));
    assert!(!scan.searches_other_drives());
    assert_eq!(scan.notice(59).unwrap().code, "STARTUP_FILESYSTEM_SCAN_DEFERRED");
    assert_eq!(scan.notice(60).unwrap().code, "NON_SYSTEM_DRIVES_SCAN_DEFERRED");
    assert!(scan.advance(ScanEvent::UptimeRead { seconds: 60 }, &mut cache).is_none());
    assert_eq!(scan.stage, ScanStage::SearchFilesystem);
    let event = ScanEvent::FilesystemSearched { apps: vec![app("in", "D:\\a\\in")] };
    let third = scan.advance(event, &mut cache).unwrap();
    assert_eq!((third.phase, third.total_count), ("tier3", 3));
    let event = ScanEvent::MovedFound { apps: vec![app("0", "F:\\moved")] };
    assert!(scan.advance(event, &mut cache).is_none());
    assert_eq!(names(&scan.apps), texts(&["0", "a", "b"]));
    assert_eq!(scan.icon_range(), (0, 3));
    let event = ScanEvent::IconsRead { executables: vec![None, text("D:\\a\\a.exe")] };
    let icons = scan.advance(event, &mut cache).unwrap();
    assert_eq!((icons.phase, icons.icon_updates.len(), icons.is_final), ("icons", 1, false));
    assert_eq!(icons.icon_updates[0].install_location, "D:\\a");
    assert!(cache.is_dirty);
    let last = scan.advance(ScanEvent::ClockRead { now: 7 }, &mut cache).unwrap();
    assert_eq!(scan.stage, ScanStage::Finished);
    assert_eq!((last.phase, last.total_count, last.is_final), ("done", 3, true));
    assert_eq!(names(&get_cached(&cache).unwrap()), names(&scan.apps));
    assert_eq!(cache.last_scan_time, 7);
    let (_, none) = scan_all_streaming(false, Some(vec![app("s", "D:\\s")]));
    assert!(none.is_none());
}

#[test]
fn moved_applications_are_asked_for_without_nested_ones() {
    let mut cache = AppCache::new(0);
    let (mut scan, _) = scan_all_streaming(false, None);
    for event in [
        ScanEvent::RegistryRead { apps: vec![app("z", "D:\\z"), app("in", "D:\\z\\in")] },
        ScanEvent::LinksFollowed { targets: Vec::new() },
        ScanEvent::ShortcutsRead { apps: vec![app("a", "D:\\a")] },
        ScanEvent::UptimeRead { seconds: 0 },
    ] {
        scan.advance(event, &mut cache);
    }
    assert_eq!(scan.stage, ScanStage::FindMoved);
    assert_eq!(names(&scan.apps), texts(&["a", "z"]));
    scan.advance(ScanEvent::MovedFound { apps: vec![app("in", "D:\\z\\in")] }, &mut cache);
    assert_eq!(names(&scan.apps), texts(&["a", "in", "z"]));
}

#[test]
fn reports_come_in_order() {
    let mut cache = AppCache::new(0);
    let (mut scan, _) = scan_all_streaming(false, None);
    let mut told = Vec::new();
    let many: Vec<InstalledApp> =
        (0..43).map(|i| app(&format!("{:02}", i), &format!("D:\\{}", i))).collect();
    let found = || vec![text("D:\\x.exe"); 20];
    for event in [
        ScanEvent::FilesystemSearched { apps: vec![app("x", "D:\\x")] },
        ScanEvent::MovedFound { apps: Vec::new() },
        ScanEvent::RegistryRead { apps: many },
        ScanEvent::RegistryRead { apps: Vec::new() },
        ScanEvent::ClockRead { now: 1 },
        ScanEvent::ShortcutsRead { apps: Vec::new() },
        ScanEvent::LinksFollowed { targets: Vec::new() },
        ScanEvent::ShortcutsRead { apps: vec![app("a", "D:\\a")] },
        ScanEvent::UptimeRead { seconds: 59 },
        ScanEvent::FilesystemSearched { apps: vec![app("y", "D:\\y")] },
        ScanEvent::MovedFound { apps: Vec::new() },
        ScanEvent::IconsRead { executables: found() },
        ScanEvent::ClockRead { now: 2 },
        ScanEvent::IconsRead { executables: Vec::new() },
        ScanEvent::IconsRead { executables: found() },
        ScanEvent::IconsRead { executables: found() },
        ScanEvent::ClockRead { now: 3 },
        ScanEvent::ClockRead { now: 4 },
    ] {
        if let Some(e) = scan.advance(event, &mut cache) {
            told.push((e.phase, e.apps.len(), e.icon_updates.len(), e.total_count, e.is_final));
        }
    }
    assert_eq!(
        told,
        vec![
            ("tier1", 43, 0, 43, false),
            ("tier2", 1, 0, 44, false),
            ("tier3", 0, 0, 44, false),
            ("icons", 0, 20, 44, false),
            ("icons", 0, 4, 44, false),
            ("done", 0, 0, 44, true),
        ]
    );
    assert_eq!((cache.apps.len(), cache.last_scan_time, cache.is_dirty), (44, 3, false));
}

#[test]
fn searches_end_at_applications_and_links() {
    let step = |dir, depth, is_link, has_app| walk_step(dir, depth, 2, is_link, has_app, &None);
    assert_eq!(step("D:\\Games", 1, false, false), WalkStep::Descend);
    assert_eq!(step("D:\\Games", 1, false, true), WalkStep::Take);
    assert_eq!(step("D:\\Games", 3, false, true), WalkStep::Skip);
    assert_eq!(step("D:\\Windows", 1, false, true), WalkStep::Skip);
    assert_eq!(step("D:\\Games", 3, true, true), WalkStep::Take);
    assert_eq!(step("D:\\Games", 1, true, false), WalkStep::Skip);
}

#[test]
fn sizes_are_known_from_earlier_scans() {
    let update = cached_size("D:\\a", Some(2047)).unwrap();
    assert_eq!((update.install_location.as_str(), update.size_kb), ("D:\\a", 1));
    assert!(cached_size("D:\\a", None).is_none());
    assert_eq!(kept_size(&update), Some(1024));
    assert_eq!(kept_size(&cached_size("D:\\a", Some(7)).unwrap()), None);
}

#[test]
fn scans_are_joined_and_sorted() {
    let apps = scan_all(vec![app("b", "D:\\b")], vec![app("a", "D:\\a"), app("c", "D:\\b\\c")]);
    assert_eq!(names(&apps), texts(&["a", "b"]));
    assert_eq!(scan_incremental(Some(29)), IncrementalScan::Reuse);
    assert_eq!(scan_incremental(Some(30)), IncrementalScan::RefreshRegistry);
    assert_eq!(scan_incremental(None), IncrementalScan::ScanAll);
    let registered = |name: &str, location: &str| InstalledApp {
        registry_path: "HKLM\\x".to_string(),
        ..app(name, location)
    };
    let cached = vec![registered("gone", "D:\\gone"), app("c", "D:\\c"), app("n", "D:\\n")];
    let registry = vec![registered("n", "d:\\N\\"), registered("b", "D:\\b")];
    assert_eq!(names(&refresh_registry(registry, cached)), texts(&["b", "c", "n"]));
}

#[test]
fn icons_and_sizes_are_reported_later() {
    let update = icon_update(&app("a", "D:\\a"), &text("A")).unwrap();
    assert_eq!(update.icon_url, "http://viap-icon.localhost/41");
    assert!(icon_update(&app("a", "D:\\a"), &None).is_none());
    let ordered = size_order(vec![app("c", "c:\\x"), app("d", "D:\\x"), app("e", "E:\\x")]);
    assert_eq!(names(&ordered), texts(&["d", "e", "c"]));
    assert_eq!(size_batches(119), (4, 150));
    assert_eq!(size_batches(120), (8, 50));
    assert_eq!(get_app_size("D:\\x", true, false).unwrap(), SizeQuestion::Measure);
    assert_eq!(get_app_size("D:\\x", false, false).unwrap_err(), "目录不存在: D:\\x");
    let processes = vec![ProcessInfo { name: "p".to_string(), exe: text("D:\\x\\p.exe") }];
    let locks = check_process_locks("D:\\x", true, &processes).unwrap();
    assert!(locks.is_locked);
    assert_eq!(locks.processes, texts(&["p"]));
    assert_eq!(check_process_locks("D:\\y", false, &processes).unwrap_err(), "源路径不存在: D:\\y");
}

#[test]
fn linked_places_count_as_seen() {
    let link = FoundApp {
        directory: "D:\\Games\\Foo".to_string(),
        exe_path: "D:\\Games\\Foo\\foo.exe".to_string(),
        is_link: true,
    };
    let target = text("E:\\Moved\\Foo\\");
    let known: Vec<String> = Vec::new();
    let mut seen: Vec<String> = Vec::new();
    let mut out: Vec<InstalledApp> = Vec::new();
    scan_directory_constrained(&link, &target, &known, &mut seen, &mut out);
    assert_eq!(names(&out), texts(&["foo"]));
    assert_eq!(
        seen,
        texts(&["d:\\games\\foo", "d:\\games\\foo\\foo.exe", "e:\\moved\\foo"])
    );
    let moved = FoundApp {
        directory: "E:\\Moved\\Foo".to_string(),
        exe_path: "E:\\Moved\\Foo\\foo.exe".to_string(),
        is_link: false,
        ..link
    };
    scan_directory_constrained(&moved, &None, &known, &mut seen, &mut out);
    assert_eq!(out.len(), 1);
    let exe_path = "E:\\Moved\\Foo\\foo2024.exe".to_string();
    let installer = FoundApp { exe_path, is_link: true, ..moved };
    let count = seen.len();
    scan_directory_constrained(&installer, &target, &known, &mut seen, &mut out);
    assert_eq!((out.len(), seen.len()), (1, count));
}

#[test]
fn roots_are_searched_in_order() {
    let places = UsualPlaces {
        program_files: text("C:\\Program Files"),
        program_files_x86: None,
        local_app_data: text("C:\\Local"),
        local_programs: text("C:\\Local\\Programs"),
        program_data: text("C:\\ProgramData"),
    };
    let drive = |mount: &str, dirs: &[&str]| DriveFacts {
        mount: mount.to_string(),
        program_dirs: texts(dirs),
    };
    let drives = vec![
        drive("c:\\", &["c:\\tools"]),
        drive("D:\\", &["D:\\software", "D:\\games"]),
        drive("E:\\", &[]),
    ];
    let listed = |whole: bool| -> Vec<(String, usize)> {
        collect_filesystem_roots(&places, &drives, whole)
            .into_iter()
            .map(|root| (root.path, root.depth))
            .collect()
    };
    let near = vec![
        ("C:\\Program Files".to_string(), 2),
        ("C:\\Local".to_string(), 2),
        ("C:\\Local\\Programs".to_string(), 2),
        ("C:\\ProgramData".to_string(), 2),
        ("D:\\software".to_string(), 3),
        ("D:\\games".to_string(), 3),
    ];
    assert_eq!(listed(false), near);
    let mut all = near;
    all.push(("D:\\".to_string(), 2));
    all.push(("E:\\".to_string(), 2));
    assert_eq!(listed(true), all);
}
