use viap::app_manager::command_line::{
    entry_target, extract_uninstall_path_hint, find_existing_path_fragment,
    is_definitely_invalid_program, is_valid_uninstall_command, parse_program_and_args,
    program_candidates, split_command_args,
};
use viap::app_manager::keywords::{
    build_keywords, contains_ascii_keyword_with_boundary, is_meaningful_keyword, keyword_matches,
    matches_keywords, normalize_match_text, normalize_windows_path, sanitize_search_text,
};
use viap::app_manager::launch::{
    after_run, elevated_script, escape_ps_single_quoted, is_elevation_required_error, judge_run,
    start_uninstall_process, AfterRun, Launch, Rights, RunEnd,
};
use viap::app_manager::registry::{
    class_roots, command_roots, is_blacklisted_registry_path, is_safe_registry_cleanup_target,
    parse_registry_path, path_below, publisher_roots, registry_key_belongs_to_app,
    uninstall_roots, Hive, KeyFacts,
};
use viap::app_manager::uninstall_search::{
    collect_uninstall_path_hints, directory_contains_executables, entry_commands,
    find_install_locations_by_app_name, find_uninstall_by_display_name,
    find_uninstall_commands_by_display_name, find_uninstall_commands_by_install_location,
    read_install_location_with_fallback, scan_uninstaller_in_directory,
    UninstallEntry,
};
use viap::app_manager::uninstaller::{
    is_application_still_installed, next_wait, preview_uninstall, resolve_uninstall_commands,
    uninstall_application, CommandOutcome, MachineFacts, UninstallInput, WaitStep, FIRST_WAIT,
    UNINSTALL_POLLS,
};

fn owned(names: &[&str]) -> Vec<String> {
    names.iter().map(|name| name.to_string()).collect()
}

fn entry(name: &str, place: &str, usual: &str, quiet: &str) -> UninstallEntry {
    UninstallEntry {
        hive: Hive::LocalMachine,
        path: format!("SOFTWARE\\Uninstall\\{}", name),
        display_name: name.to_string(),
        install_location: place.to_string(),
        uninstall_string: usual.to_string(),
        quiet_uninstall_string: quiet.to_string(),
    }
}

#[test]
fn search_texts_are_cleaned() {
    assert_eq!(sanitize_search_text(" \"A\u{7}pp\" "), "App");
    assert_eq!(normalize_match_text("\"ÄPP\""), "äpp");
    assert_eq!(normalize_windows_path("C:/A\\B "), "c:\\a\\b");
}

#[test]
fn keywords_stand_as_words_of_their_own() {
    assert!(contains_ascii_keyword_with_boundary("my qq app", "qq"));
    assert!(!contains_ascii_keyword_with_boundary("qqmusic", "qq"));
    assert!(contains_ascii_keyword_with_boundary("qqmusic\\qq", "qq"));
    assert!(!contains_ascii_keyword_with_boundary("x-a-a-", "-a-"));
    assert!(contains_ascii_keyword_with_boundary(" -a-", "-a-"));
    assert!(contains_ascii_keyword_with_boundary("", ""));
    assert!(contains_ascii_keyword_with_boundary("a  b", ""));
    assert!(!contains_ascii_keyword_with_boundary("ab", ""));
    assert!(keyword_matches("微信电脑版", "微信"));
    assert!(!keyword_matches("anything", ""));
    assert!(matches_keywords("c:\\foo bar", &owned(&["none", "bar"])));
    assert!(!matches_keywords("c:\\foobar", &owned(&["bar"])));
}

#[test]
fn keywords_tell_applications_apart() {
    assert!(!is_meaningful_keyword("app"));
    assert!(!is_meaningful_keyword("ab"));
    assert!(is_meaningful_keyword("abc"));
    assert!(is_meaningful_keyword("微信"));
    let keywords = build_keywords(
        "Clash Verge",
        &Some("Verge Inc".to_string()),
        &Some("D:\\Tools\\clash".to_string()),
    );
    assert!(keywords.contains(&"clash".to_string()));
    assert!(keywords.contains(&"verge".to_string()));
    assert!(!keywords.contains(&"inc".to_string()));
    assert_eq!(keywords.iter().filter(|k| *k == "verge").count(), 1);
}

#[test]
fn arguments_are_split_at_blanks_outside_quotes() {
    assert_eq!(split_command_args("/S  \"a b\"\tc"), owned(&["/S", "a b", "c"]));
    assert_eq!(split_command_args("a\"b c\"d \"\""), owned(&["ab cd"]));
    assert!(split_command_args(" ").is_empty());
}

#[test]
fn programs_are_the_longest_existing_words() {
    let present = owned(&["C:\\Program Files\\App\\un.exe"]);
    let (program, args) =
        parse_program_and_args("C:\\Program Files\\App\\un.exe /S /Q", &present).unwrap();
    assert_eq!(program, "C:\\Program Files\\App\\un.exe");
    assert_eq!(args, owned(&["/S", "/Q"]));
    let (program, args) = parse_program_and_args("msiexec /x {1}", &present).unwrap();
    assert_eq!((program.as_str(), args.len()), ("msiexec", 2));
    let (program, args) = parse_program_and_args("\"D:\\a b.exe\" \"c d\"", &present).unwrap();
    assert_eq!((program.as_str(), args), ("D:\\a b.exe", owned(&["c d"])));
    assert!(parse_program_and_args("\"open", &present).is_none());
    assert!(parse_program_and_args("  ", &present).is_none());
    assert_eq!(program_candidates("a b c"), owned(&["a b c", "a b", "a"]));
    assert_eq!(program_candidates("\"x y\" z"), owned(&["x y"]));
}

#[test]
fn commands_without_a_program_are_invalid() {
    for bad in ["", " \"\" ", "\\", "\\\\", "/"] {
        assert!(is_definitely_invalid_program(bad), "{}", bad);
        assert!(!is_valid_uninstall_command(bad));
    }
    assert!(is_valid_uninstall_command("a"));
}

#[test]
fn fragments_lead_to_paths() {
    let present = owned(&["D:\\a b\\un.exe"]);
    assert_eq!(
        find_existing_path_fragment("D:\\a b\\un.exe /S", &present).unwrap(),
        "D:\\a b\\un.exe"
    );
    assert!(find_existing_path_fragment("D:\\c.exe", &present).is_none());
    assert_eq!(find_existing_path_fragment("\"q r\" s", &present).unwrap(), "q r");
    assert_eq!(entry_target("D:\\a b\\un.exe,0", &present).unwrap(), "D:\\a b\\un.exe");
    assert_eq!(
        extract_uninstall_path_hint("D:\\a b\\un.exe /S", &present).unwrap(),
        "d:\\a b\\un.exe"
    );
}

#[test]
fn launching_is_refused_with_a_reason() {
    let none: Vec<String> = Vec::new();
    let refused = |command: &str| match start_uninstall_process(command, &none) {
        Launch::Refused(reason) => reason,
        Launch::Run { .. } => panic!("refused"),
    };
    assert_eq!(refused("  "), "卸载命令为空");
    assert_eq!(refused("\"x"), "无法解析卸载命令: \"x");
    assert_eq!(refused("\\ /S"), "卸载命令无效，程序路径非法: \\");
    assert_eq!(refused("D:\\x.exe /S"), "卸载程序不存在: D:\\x.exe");
    match start_uninstall_process("MsiExec.exe /X{1}", &none) {
        Launch::Run { program, args } => {
            assert_eq!(program, "MsiExec.exe");
            assert_eq!(args, owned(&["/X{1}"]));
        }
        Launch::Refused(reason) => panic!("{}", reason),
    }
}

#[test]
fn runs_are_judged_by_their_end() {
    let exited = |success, code| RunEnd::Exited { success, code };
    assert!(judge_run(Rights::Usual, &exited(true, Some(0))).is_ok());
    assert!(judge_run(Rights::Usual, &exited(false, Some(3010))).is_ok());
    assert_eq!(
        judge_run(Rights::Usual, &exited(false, Some(2))).unwrap_err(),
        "卸载程序执行失败，退出码: 2"
    );
    assert_eq!(
        judge_run(Rights::Elevated, &exited(false, None)).unwrap_err(),
        "提权执行卸载失败，退出码: -1"
    );
    assert_eq!(
        judge_run(Rights::Elevated, &RunEnd::NotStarted("x".to_string())).unwrap_err(),
        "启动提权卸载失败: x"
    );
    assert_eq!(
        judge_run(Rights::Usual, &RunEnd::NotAwaited("x".to_string())).unwrap_err(),
        "等待卸载程序结束失败: x"
    );
}

#[test]
fn elevation_is_recognised_and_scripted() {
    assert!(is_elevation_required_error("请求的操作需要提升。 (os error 740)"));
    assert!(!is_elevation_required_error("os error 5"));
    assert_eq!(escape_ps_single_quoted("it's"), "it''s");
    let script = elevated_script("D:\\un'.exe", &owned(&["/S"]), &Some("D:\\".to_string()));
    assert!(script.contains("-FilePath 'D:\\un''.exe'"));
    assert!(script.contains("-Verb RunAs"));
    assert!(script.contains("'/S'"));
    assert!(script.contains("-WorkingDirectory 'D:\\'"));
}

#[test]
fn registry_paths_need_a_known_hive() {
    let key = parse_registry_path("HKEY_LOCAL_MACHINE\\SOFTWARE\\X").unwrap();
    assert_eq!((key.hive, key.path.as_str()), (Hive::LocalMachine, "SOFTWARE\\X"));
    let key = parse_registry_path("HKCU\\A").unwrap();
    assert_eq!((key.hive, key.path.as_str()), (Hive::CurrentUser, "A"));
    assert!(parse_registry_path("hkcu\\A").is_none());
    assert!(parse_registry_path("HKCR\\A").is_none());
    assert_eq!(path_below("A", "B"), "A\\B");
    assert_eq!(uninstall_roots().len(), 3);
    assert_eq!(command_roots().len(), 4);
    assert_eq!(publisher_roots().len(), 4);
    assert_eq!(class_roots().len(), 2);
}

fn key_facts(opens: bool, is_empty: bool, display_name: &str) -> KeyFacts {
    KeyFacts {
        opens,
        is_empty,
        display_name: display_name.to_string(),
        publisher: String::new(),
        install_location: String::new(),
        uninstall_string: String::new(),
    }
}

#[test]
fn system_keys_are_kept() {
    assert!(is_blacklisted_registry_path(" SOFTWARE "));
    assert!(is_blacklisted_registry_path("Software\\Microsoft\\Windows NT\\X"));
    assert!(!is_blacklisted_registry_path("Software\\Microsoft\\Office"));
    let empty = key_facts(true, true, "");
    let words = owned(&["clash"]);
    assert!(!is_safe_registry_cleanup_target("SOFTWARE\\Microsoft\\Windows\\X", &empty, &words));
    assert!(!is_safe_registry_cleanup_target("SOFTWARE\\Clash", &empty, &words));
    assert!(!is_safe_registry_cleanup_target("HARDWARE\\Clash\\A", &empty, &words));
    assert!(is_safe_registry_cleanup_target("\\SOFTWARE\\Clash\\A\\", &empty, &words));
}

#[test]
fn foreign_keys_are_kept() {
    let words = owned(&["clash"]);
    let path = "SOFTWARE\\Vendor\\A";
    assert!(!is_safe_registry_cleanup_target(path, &key_facts(true, false, "Other"), &words));
    assert!(is_safe_registry_cleanup_target(path, &key_facts(true, false, "Clash Verge"), &words));
    assert!(!is_safe_registry_cleanup_target(path, &key_facts(false, true, "Clash"), &words));
    let none: Vec<String> = Vec::new();
    assert!(!is_safe_registry_cleanup_target(path, &key_facts(true, false, "Clash"), &none));
    assert!(registry_key_belongs_to_app(&key_facts(true, false, ""), "software\\clash", &words));
    assert!(!registry_key_belongs_to_app(&key_facts(true, false, ""), "software\\clashx", &words));
}

#[test]
fn entries_hold_one_or_two_commands() {
    assert_eq!(entry_commands(" un /q ", "un"), owned(&["un /q", "un"]));
    assert_eq!(entry_commands("UN", "un "), owned(&["UN"]));
    assert_eq!(entry_commands("\\", "un"), owned(&["un"]));
    assert!(entry_commands("", " ").is_empty());
}

fn sample_entries() -> Vec<UninstallEntry> {
    vec![
        entry("Sample", "", "", ""),
        entry(" SAMPLE ", "D:\\Sample\\", "D:\\Sample\\un.exe /S", ""),
        entry("Other", "D:\\Other", "other", "other /q"),
    ]
}

#[test]
fn commands_are_found_by_name_and_place() {
    let entries = sample_entries();
    assert_eq!(
        find_uninstall_commands_by_display_name("sample", &entries),
        owned(&["D:\\Sample\\un.exe /S"])
    );
    assert_eq!(find_uninstall_by_display_name("other", &entries).unwrap(), "other /q");
    assert!(find_uninstall_by_display_name(" ", &entries).is_none());
    assert_eq!(
        find_uninstall_commands_by_install_location(" d:\\sample ", &entries),
        owned(&["D:\\Sample\\un.exe /S"])
    );
    assert!(find_uninstall_commands_by_install_location("d:\\none", &entries).is_empty());
}

#[test]
fn uninstallers_are_recognised_by_name() {
    let files = owned(&[
        "D:\\N\\uninstall.dll",
        "D:\\N\\app.exe",
        "D:\\N\\Unins000.exe",
        "D:\\N\\卸载.exe",
    ]);
    assert_eq!(scan_uninstaller_in_directory(&files).unwrap(), "D:\\N\\Unins000.exe");
    assert!(scan_uninstaller_in_directory(&Vec::new()).is_none());
    assert!(scan_uninstaller_in_directory(&owned(&["D:\\unin\\a.exe"])).is_none());
    assert!(directory_contains_executables(&owned(&["D:\\N\\a", "D:\\N\\b.DLL"])));
    assert!(!directory_contains_executables(&owned(&["D:\\N\\a", "D:\\N\\b.txt"])));
}

#[test]
fn places_and_hints_come_from_entries() {
    let entries = sample_entries();
    assert_eq!(find_install_locations_by_app_name("Sample", &entries), owned(&["D:\\Sample\\"]));
    let present = owned(&["D:\\Sample\\un.exe"]);
    let hints = collect_uninstall_path_hints(
        "sample",
        &Some("D:/Sample".to_string()),
        &entries,
        &present,
    );
    assert!(hints.contains(&"d:\\sample".to_string()));
    assert!(hints.contains(&"d:\\sample\\un.exe".to_string()));
    assert!(!hints.contains(&"other".to_string()));
}

#[test]
fn places_fall_back_to_icon_and_uninstaller() {
    let icon = Some("D:\\Icon".to_string());
    let shared = Some("C:\\Windows\\System32".to_string());
    let tool = Some("D:\\Tool".to_string());
    assert_eq!(read_install_location_with_fallback("D:\\A", &icon, &tool).unwrap(), "D:\\A");
    assert_eq!(read_install_location_with_fallback("", &icon, &tool).unwrap(), "D:\\Icon");
    assert_eq!(read_install_location_with_fallback("", &shared, &tool).unwrap(), "D:\\Tool");
    assert!(read_install_location_with_fallback("", &None, &shared).is_none());
}

fn input(app_id: Option<&str>, registry_path: Option<&str>, place: Option<&str>) -> UninstallInput {
    UninstallInput {
        app_id: app_id.map(|s| s.to_string()),
        registry_path: registry_path.map(|s| s.to_string()),
        install_location: place.map(|s| s.to_string()),
        use_recycle_bin: None,
    }
}

fn machine(entries: Vec<UninstallEntry>) -> MachineFacts {
    MachineFacts { named_commands: None, entries, files: Vec::new(), top_files: Vec::new() }
}

#[test]
fn commands_are_resolved_in_order() {
    let mut facts = machine(sample_entries());
    facts.named_commands = Some(("quiet".to_string(), "usual".to_string()));
    let named = input(Some("other"), Some("HKLM\\X"), None);
    assert_eq!(
        resolve_uninstall_commands(&named, &facts).unwrap(),
        owned(&["quiet", "usual"])
    );
    let unknown_hive = input(Some("other"), Some("HKCR\\X"), None);
    assert_eq!(
        resolve_uninstall_commands(&unknown_hive, &facts).unwrap(),
        owned(&["other /q", "other"])
    );
    facts.files = owned(&["D:\\N\\unins.exe"]);
    let by_file = input(Some("nobody"), None, Some("D:\\N"));
    assert_eq!(
        resolve_uninstall_commands(&by_file, &facts).unwrap(),
        owned(&["D:\\N\\unins.exe"])
    );
    let by_place = input(Some("nobody"), None, Some("d:\\other\\"));
    assert_eq!(
        resolve_uninstall_commands(&by_place, &facts).unwrap(),
        owned(&["other /q", "other"])
    );
}

#[test]
fn unresolved_commands_have_a_reason() {
    let facts = machine(Vec::new());
    assert_eq!(
        resolve_uninstall_commands(&input(Some("X"), None, None), &facts).unwrap_err(),
        "未找到应用 'X' 的卸载命令"
    );
    assert_eq!(
        resolve_uninstall_commands(&input(None, Some("HKLM\\X"), None), &facts).unwrap_err(),
        "未在注册表中找到可用的卸载命令，且未提供应用名称用于搜索。"
    );
    assert_eq!(
        resolve_uninstall_commands(&input(None, Some(" "), None), &facts).unwrap_err(),
        "参数无效：请提供 app_id 或 registry_path"
    );
    let preview = preview_uninstall(input(None, None, None), None).unwrap();
    assert_eq!(preview.commands, owned(&["仅支持 Windows"]));
    let preview = preview_uninstall(input(Some("other"), None, None), Some(&machine(sample_entries())));
    assert_eq!(preview.unwrap().commands.len(), 2);
}

#[test]
fn presence_has_four_signs() {
    let mut facts = machine(Vec::new());
    let asked = input(Some("other"), Some("HKLM\\X"), Some("D:\\O"));
    assert!(!is_application_still_installed(&asked, false, &facts));
    assert!(is_application_still_installed(&asked, true, &facts));
    facts.top_files = owned(&["D:\\N\\a.exe"]);
    assert!(is_application_still_installed(&asked, false, &facts));
    let no_place = input(Some("other"), None, None);
    assert!(!is_application_still_installed(&no_place, true, &facts));
    facts.entries = sample_entries();
    assert!(is_application_still_installed(&no_place, false, &facts));
}

#[test]
fn uninstalling_tries_commands_until_one_works() {
    let facts = machine(sample_entries());
    let asked = input(Some("other"), None, None);
    let mut run = uninstall_application(&asked, &facts).unwrap();
    assert_eq!(run.next_command().unwrap(), "other /q");
    run.take_outcome(CommandOutcome::Failed("no".to_string()));
    assert_eq!(run.next_command().unwrap(), "other");
    run.take_outcome(CommandOutcome::Gone);
    assert!(run.next_command().is_none());
    let result = run.conclude().unwrap();
    assert!(result.success);
    assert_eq!(result.command.as_deref(), Some("other"));
    assert_eq!(result.message, "卸载流程已完成。请在前端手动确认后再触发残留扫描。");
}

#[test]
fn uninstalling_reports_failures() {
    let facts = machine(sample_entries());
    let asked = input(Some("other"), None, None);
    let mut run = uninstall_application(&asked, &facts).unwrap();
    run.take_outcome(CommandOutcome::Failed("a".to_string()));
    run.take_outcome(CommandOutcome::Failed("b".to_string()));
    let reason = run.conclude().unwrap_err();
    assert!(reason.starts_with("卸载命令执行失败："));
    assert!(reason.contains("a") && reason.contains(" | ") && reason.contains("b"));

    let mut run = uninstall_application(&asked, &facts).unwrap();
    run.take_outcome(CommandOutcome::StillInstalled);
    assert!(run.conclude().is_err() || !run.conclude().unwrap().success);
    assert!(uninstall_application(&input(None, None, None), &facts).is_err());
}

#[test]
fn programs_are_run_at_most_twice() {
    let needs_rights = || RunEnd::NotStarted("... (os error 740)".to_string());
    assert!(matches!(after_run(Rights::Usual, &needs_rights()), AfterRun::RunElevated));
    match after_run(Rights::Elevated, &needs_rights()) {
        AfterRun::Failed(reason) => assert_eq!(reason, "启动提权卸载失败: ... (os error 740)"),
        other => panic!("{:?}", other),
    }
    match after_run(Rights::Usual, &RunEnd::NotStarted("gone".to_string())) {
        AfterRun::Failed(reason) => assert_eq!(reason, "启动卸载程序失败: gone"),
        other => panic!("{:?}", other),
    }
    let restart = RunEnd::Exited { success: false, code: Some(3010) };
    assert!(matches!(after_run(Rights::Usual, &restart), AfterRun::Succeeded));
}

#[test]
fn waiting_ends_when_gone_or_after_the_last_poll() {
    assert_eq!((FIRST_WAIT, UNINSTALL_POLLS), (2000, 60));
    assert_eq!(next_wait(0, false), WaitStep::Sleep(1000));
    assert_eq!(next_wait(59, false), WaitStep::Sleep(1000));
    assert_eq!(next_wait(60, false), WaitStep::Done(false));
    assert_eq!(next_wait(3, true), WaitStep::Done(true));
}
