//! What is promised of places and replies: where a command, a setting or a
//! survey leads, and what is said of a cleanup and a removal.

use vstd::prelude::*;

use super::detector::{
    first_install, place_by_install, plain_setting, qq_place, ProbedPath, QqInstall,
};
use super::disk_scan_policy::{compared_path, is_left_alone, DiskFacts};
use super::force_remove::{removal_message, RemovalView};
use super::keywords::{match_text, sanitized};
use super::lnk::{is_decoding, is_target, is_text_end, path_offset};
use super::locate::{
    directory_named, from_first_letter, path_in_command, path_length, shrinking,
};
use super::registry::{below, hive_name, key_of, may_delete_key, Hive};
use super::remains_cleanup::{message_of, CleanupView};
use super::residue::StrictScanContext;
use super::residue_scan::{is_key_of, publisher_key_path, PublisherKey};
use super::scan_rules::{is_support, normalized_path, DirItem};
use super::scanner::{found_name, linked_places, FoundApp};
use super::snapshot::icon_url;
use super::streaming::{executable_at, has_icon, icon_source, icons_of};
use super::survey::{
    count_exes, is_config_file, is_file_of, is_installer, some_item, surveys, DirectorySurvey,
};
use super::uninstall_search::{places_by_name, UninstallEntry};
use super::uninstall_snapshot::{keys_with_children, recorded_keys, MAX_ENTRIES_PER_GROUP};
use crate::migration::migration_laws::{lemma_tells, tells};
use crate::models::InstalledApp;
use crate::path;
use crate::text;
use crate::text::CharSet;

verus! {

/// A command that is a path on a drive and nothing else gives that path.
pub proof fn law_bare_path_is_read(raw: Seq<char>)
    requires
        raw.len() >= 3,
        text::is_ascii_letter(raw[0]),
        raw[1] == ':',
        raw[2] == '\\',
        !CharSet::Whitespace.holds(raw[0]),
        !CharSet::Whitespace.holds(raw.last()),
        !text::contains_text(raw, "\""@),
        !text::contains_text(raw, " /"@),
        !text::contains_text(raw, " -"@),
    ensures
        path_in_command(raw) == Some(raw),
{
    reveal_strlit("\"");
    text::lemma_index_of(raw, "\""@, 0);
    text::lemma_index_of(raw, " /"@, 0);
    text::lemma_index_of(raw, " -"@, 0);
    assert forall|i: int| 0 <= i < raw.len() implies #[trigger] raw[i] != '"' by {
        if raw[i] == '"' {
            assert(raw.subrange(i, i + 1) =~= "\""@);
            assert(text::stands_at(raw, "\""@, i));
        }
    }
    assert(raw[0] != '"' && raw[raw.len() - 1] != '"');
    assert(text::trimmed(raw, CharSet::Whitespace) == raw);
    assert(text::trimmed(raw, CharSet::One('"')) == raw);
    assert(from_first_letter(raw) == raw);
    assert(path_length(raw) == raw.len());
    assert(raw.take(raw.len() as int) =~= raw);
}

/// A command whose first letter is not that of a drive gives no path.
pub proof fn law_command_without_drive_gives_no_path(raw: Seq<char>)
    requires
        raw.len() >= 2,
        text::is_ascii_letter(raw[0]),
        raw[1] != ':',
        raw[1] != '"',
        raw[0] != '"',
        !CharSet::Whitespace.holds(raw[0]),
        !CharSet::Whitespace.holds(raw.last()),
        raw.last() != '"',
    ensures
        path_in_command(raw) is None,
{
    assert(text::trimmed(raw, CharSet::Whitespace) == raw);
    assert(text::trimmed(raw, CharSet::One('"')) == raw);
    assert(from_first_letter(raw) == raw);
}

/// A file leads to the directory that it stands in, anything else to itself.
pub proof fn law_file_leads_to_its_directory(file: Seq<char>)
    ensures
        directory_named(file, true) == path::parent(file),
        directory_named(file, false) == Some(file),
{
}

/// Of a number of words as many beginnings are tried, the longest first.
pub proof fn law_longest_beginning_comes_first(words: Seq<Seq<char>>, k: int)
    requires
        0 <= k < words.len(),
    ensures
        shrinking(words).len() == words.len(),
        shrinking(words)[k] == text::joined(words.take(words.len() - k), " "@),
    decreases words.len(),
{
    let shorter = words.drop_last();
    if shorter.len() > 0 {
        law_longest_beginning_comes_first(
            shorter,
            if k > 0 {
                k - 1
            } else {
                0
            },
        );
    }
    if shorter.len() == 0 {
        assert(shrinking(shorter).len() == 0);
    }
    if k == 0 {
        assert(words.take(words.len() as int) =~= words);
    } else {
        assert(shrinking(words)[k] == shrinking(shorter)[k - 1]);
        assert(shorter.take(shorter.len() - (k - 1)) =~= words.take(words.len() - k));
    }
}

/// QQ keeps its data in the documents where that directory exists; else where
/// the first value leads that leads anywhere.
pub proof fn law_where_qq_keeps_its_data(
    documents: Option<ProbedPath>,
    installs: Seq<QqInstall>,
    i: int,
)
    ensures
        documents matches Some(files) && files.exists ==> qq_place(documents, installs) == Some(
            documents->0.path@,
        ),
        !(documents matches Some(files) && files.exists) && 0 <= i < installs.len()
            && place_by_install(installs[i]) is Some && (forall|j: int|
            0 <= j < i ==> place_by_install(#[trigger] installs[j]) is None) ==> qq_place(
            documents,
            installs,
        ) == place_by_install(installs[i]),
        !(documents matches Some(files) && files.exists) && (forall|j: int|
            0 <= j < installs.len() ==> place_by_install(#[trigger] installs[j]) is None)
            ==> qq_place(documents, installs) is None,
{
    if 0 <= i < installs.len() && place_by_install(installs[i]) is Some && (forall|j: int|
        0 <= j < i ==> place_by_install(#[trigger] installs[j]) is None) {
        lemma_first_install(installs, i, 0);
    }
    if forall|j: int|
        0 <= j < installs.len() ==> place_by_install(#[trigger] installs[j]) is None {
        lemma_no_install(installs, 0);
    }
}

proof fn lemma_first_install(installs: Seq<QqInstall>, i: int, from: int)
    requires
        0 <= from <= i < installs.len(),
        place_by_install(installs[i]) is Some,
        forall|j: int| 0 <= j < i ==> place_by_install(#[trigger] installs[j]) is None,
    ensures
        first_install(installs, from) == place_by_install(installs[i]),
    decreases i - from,
{
    if from < i {
        assert(place_by_install(installs[from]) is None);
        lemma_first_install(installs, i, from + 1);
    }
}

proof fn lemma_no_install(installs: Seq<QqInstall>, from: int)
    requires
        0 <= from,
        forall|j: int| 0 <= j < installs.len() ==> place_by_install(#[trigger] installs[j]) is None,
    ensures
        first_install(installs, from) is None,
    decreases installs.len() - from,
{
    if from < installs.len() {
        assert(place_by_install(installs[from]) is None);
        lemma_no_install(installs, from + 1);
    }
}

/// One value leads to the directory of files below the installation where that
/// exists, else to the installation where that is a directory; a blank one leads
/// nowhere.
pub proof fn law_where_one_value_leads(install: QqInstall)
    ensures
        plain_setting(install.value@).len() == 0 ==> place_by_install(install) is None,
        plain_setting(install.value@).len() > 0 && install.files.exists ==> place_by_install(
            install,
        ) == Some(install.files.path@),
        plain_setting(install.value@).len() > 0 && !install.files.exists && install.install.exists
            && install.install.is_dir ==> place_by_install(install) == Some(install.install.path@),
        !install.files.exists && !(install.install.exists && install.install.is_dir)
            ==> place_by_install(install) is None,
{
}

/// Right after the start only disks that turn are left alone, and of these none
/// of the system's; a disk with another letter is.
pub proof fn law_which_disks_are_left_alone(disk: DiskFacts)
    ensures
        !disk.is_hdd ==> !is_left_alone(disk),
        compared_path(disk.mount@) == "c:"@ ==> !is_left_alone(disk),
        disk.is_hdd && compared_path(disk.mount@).len() > 0 && compared_path(disk.mount@)[0] != 'c'
            ==> is_left_alone(disk),
{
    reveal_strlit("c:");
    reveal_strlit("c:\\");
    let place = compared_path(disk.mount@);
    if text::has_prefix(place, "c:\\"@) {
        assert(place.subrange(0, 3)[0] == 'c');
    }
}

/// A directory that holds a library, a setting or a directory of support is
/// never ruled out; one with lone installers is, and so is a place for
/// downloads without any of these.
pub proof fn law_which_directories_are_ruled_out(s: DirectorySurvey, dir_name: Seq<char>)
    ensures
        s.has_dll || s.has_config || s.has_supporting_subdirs ==> !s.rules_out(dir_name),
        s.exe_count > 0 && !s.has_non_installer_exe && !s.has_launcher && !s.has_dll
            && !s.has_config && !s.has_supporting_subdirs ==> s.rules_out(dir_name),
        (dir_name == "download"@ || dir_name == "downloads"@ || dir_name == "temp"@ || dir_name
            == "tmp"@) && !s.has_dll && !s.has_config && !s.has_supporting_subdirs ==> s.rules_out(
            dir_name,
        ),
{
    let names = super::survey::download_dirs();
    assert(names[0]@ == "download"@ && names[1]@ == "downloads"@ && names[2]@ == "temp"@
        && names[3]@ == "tmp"@);
}

/// A survey sees every entry that counts.
pub proof fn law_survey_sees_every_entry(s: DirectorySurvey, items: Seq<DirItem>, i: int)
    requires
        surveys(s, items),
        0 <= i < items.len(),
    ensures
        is_file_of(items[i], "exe"@) ==> s.exe_count > 0,
        is_file_of(items[i], "exe"@) && !is_installer(items[i]) ==> s.has_non_installer_exe,
        is_file_of(items[i], "bat"@) || is_file_of(items[i], "cmd"@) ==> s.has_launcher,
        is_file_of(items[i], "dll"@) ==> s.has_dll,
        is_config_file(items[i]) ==> s.has_config,
        is_support(items[i]) ==> s.has_supporting_subdirs,
{
    lemma_exes_are_counted(items, i);
    let launcher = |item: DirItem| is_file_of(item, "bat"@) || is_file_of(item, "cmd"@);
    let program = |item: DirItem| is_file_of(item, "exe"@) && !is_installer(item);
    let library = |item: DirItem| is_file_of(item, "dll"@);
    let setting = |item: DirItem| is_config_file(item);
    let support = |item: DirItem| is_support(item);
    assert(launcher(items[i]) ==> some_item(items, launcher));
    assert(program(items[i]) ==> some_item(items, program));
    assert(library(items[i]) ==> some_item(items, library));
    assert(setting(items[i]) ==> some_item(items, setting));
    assert(support(items[i]) ==> some_item(items, support));
}

proof fn lemma_exes_are_counted(items: Seq<DirItem>, i: int)
    requires
        0 <= i < items.len(),
    ensures
        is_file_of(items[i], "exe"@) ==> count_exes(items) > 0,
    decreases items.len(),
{
    if i < items.len() - 1 {
        lemma_exes_are_counted(items.drop_last(), i);
    }
}

/// A key below the publisher's that bears the name of the application's folder
/// is its key, where it may be deleted.
pub proof fn law_key_named_like_the_folder(key: PublisherKey, context: StrictScanContext)
    requires
        context.publisher_name matches Some(name) && name@.len() > 0,
        text::lowercase(key.name@) == context.app_folder_name@,
        key.facts.opens,
        may_delete_key(
            publisher_key_path(key, context),
            key.facts,
            seq![context.publisher_name->0],
        ),
    ensures
        is_key_of(key, context),
{
    let name = text::lowercase(key.name@);
    assert(name.subrange(0, name.len() as int) =~= name);
    assert(text::stands_at(name, context.app_folder_name@, 0));
}

/// A key is taken for the application's only where the publisher is known and
/// the key may be deleted.
pub proof fn law_keys_of_no_publisher_stay(key: PublisherKey, context: StrictScanContext)
    ensures
        context.publisher_name is None ==> !is_key_of(key, context),
        !key.facts.opens ==> !is_key_of(key, context),
        is_key_of(key, context) ==> may_delete_key(
            publisher_key_path(key, context),
            key.facts,
            seq![context.publisher_name->0],
        ),
{
}

/// Every application with an icon is reported with its place.
pub proof fn law_no_icon_is_missing(
    apps: Seq<InstalledApp>,
    executables: Seq<Option<String>>,
    n: int,
    i: int,
)
    requires
        0 <= i < n <= apps.len(),
        has_icon(apps[i], executable_at(executables, i)),
    ensures
        icons_of(apps, executables, n).contains(
            (
                apps[i].install_location@,
                Seq::<char>::empty(),
                icon_url(icon_source(apps[i], executable_at(executables, i))),
            ),
        ),
    decreases n,
{
    let all = icons_of(apps, executables, n);
    let before = icons_of(apps, executables, n - 1);
    if i == n - 1 {
        assert(all.last() == (
            apps[i].install_location@,
            Seq::<char>::empty(),
            icon_url(icon_source(apps[i], executable_at(executables, i))),
        ));
        assert(all[all.len() - 1] == all.last());
    } else {
        law_no_icon_is_missing(apps, executables, n - 1, i);
        let j = choose|j: int|
            0 <= j < before.len() && before[j] == (
                apps[i].install_location@,
                Seq::<char>::empty(),
                icon_url(icon_source(apps[i], executable_at(executables, i))),
            );
        assert(all[j] == before[j]);
    }
}

/// What is said of a cleanup tells how many items were deleted and how many
/// were not.
pub proof fn law_cleanup_is_counted(state: CleanupView)
    requires
        state.cleaned >= 0,
    ensures
        state.failed.len() == 0 && (state.cleaned > 0 || !state.was_empty) ==> tells(
            message_of(state),
            text::decimal(state.cleaned as nat),
        ) && text::has_prefix(message_of(state), "清理完成"@),
        state.failed.len() > 0 ==> tells(message_of(state), text::decimal(state.failed.len())),
        state.failed.len() > 0 && state.cleaned > 0 ==> tells(
            message_of(state),
            text::decimal(state.cleaned as nat),
        ),
        state.failed.len() == 0 && state.cleaned == 0 && state.was_empty ==> message_of(state)
            == "没有需要清理的项目"@,
{
    let cleaned = text::decimal(state.cleaned as nat);
    let failed = text::decimal(state.failed.len());
    reveal_strlit("清理完成");
    reveal_strlit("清理完成，共删除 ");
    lemma_tells("清理完成，共删除 "@, cleaned, " 项"@);
    lemma_tells(
        "所有 "@,
        failed,
        " 项清理均失败（可能需管理员权限），请以管理员身份运行后重试"@,
    );
    let middle = " 项，失败 "@ + failed + " 项（失败项可能需管理员权限）"@;
    lemma_tells("清理部分完成：成功 "@, cleaned, middle);
    lemma_tells(
        "清理部分完成：成功 "@ + cleaned + " 项，失败 "@,
        failed,
        " 项（失败项可能需管理员权限）"@,
    );
    if state.failed.len() > 0 && state.cleaned > 0 {
        assert("清理部分完成：成功 "@ + cleaned + middle =~= message_of(state));
    }
    if state.failed.len() == 0 && (state.cleaned > 0 || !state.was_empty) {
        assert(message_of(state).subrange(0, 4) =~= "清理完成"@);
    }
}

/// What is said of a removal tells what was deleted and where it went.
pub proof fn law_removal_is_told(removal: RemovalView)
    ensures
        removal.deleted_files ==> tells(removal_message(removal), "文件已删除"@),
        removal.deleted_registry ==> tells(removal_message(removal), "注册表已清理"@),
        removal.install_location is Some ==> tells(
            removal_message(removal),
            "建议运行残留扫描彻底清理。"@,
        ),
        removal.use_recycle_bin ==> tells(removal_message(removal), "（已移入回收站）"@),
{
    let parts = if removal.deleted_files && removal.deleted_registry {
        "文件已删除"@ + "，"@ + "注册表已清理"@
    } else if removal.deleted_files {
        "文件已删除"@
    } else if removal.deleted_registry {
        "注册表已清理"@
    } else {
        seq![]
    };
    let advice = if removal.install_location is Some {
        "建议运行残留扫描彻底清理。"@
    } else {
        seq![]
    };
    let bin = if removal.use_recycle_bin {
        "（已移入回收站）"@
    } else {
        seq![]
    };
    let begin = "强制删除完成："@;
    let whole = removal_message(removal);
    assert(whole == begin + parts + "。"@ + advice + bin);
    let end = "。"@ + advice + bin;
    if removal.deleted_files {
        let after = if removal.deleted_registry {
            "，"@ + "注册表已清理"@ + end
        } else {
            end
        };
        lemma_tells(begin, "文件已删除"@, after);
        assert(begin + "文件已删除"@ + after =~= whole);
    }
    if removal.deleted_registry {
        let before = if removal.deleted_files {
            begin + "文件已删除"@ + "，"@
        } else {
            begin
        };
        lemma_tells(before, "注册表已清理"@, end);
        assert(before + "注册表已清理"@ + end =~= whole);
    }
    if removal.install_location is Some {
        lemma_tells(begin + parts + "。"@, advice, bin);
    }
    if removal.use_recycle_bin {
        lemma_tells(begin + parts + "。"@ + advice, bin, seq![]);
        assert(begin + parts + "。"@ + advice + bin + seq![] =~= whole);
    }
}

/// Every entry with a place that bears the name gives its place.
pub proof fn law_no_place_by_name_is_missing(
    name: Seq<char>,
    entries: Seq<UninstallEntry>,
    i: int,
)
    requires
        0 <= i < entries.len(),
        match_text(entries[i].display_name@) == name,
        sanitized(entries[i].install_location@).len() > 0,
    ensures
        places_by_name(name, entries).contains(sanitized(entries[i].install_location@)),
    decreases entries.len(),
{
    let place = sanitized(entries[i].install_location@);
    let before = places_by_name(name, entries.drop_last());
    let after = places_by_name(name, entries);
    if i == entries.len() - 1 {
        assert(after[after.len() - 1] == place);
    } else {
        law_no_place_by_name_is_missing(name, entries.drop_last(), i);
        let j = choose|j: int| 0 <= j < before.len() && before[j] == place;
        assert(after[j] == place);
    }
}

/// Every place that is given by name is that of an entry that bears it.
pub proof fn law_places_by_name_are_of_the_name(
    name: Seq<char>,
    entries: Seq<UninstallEntry>,
    j: int,
)
    requires
        0 <= j < places_by_name(name, entries).len(),
    ensures
        exists|i: int|
            0 <= i < entries.len() && match_text((#[trigger] entries[i]).display_name@) == name
                && sanitized(entries[i].install_location@) == places_by_name(name, entries)[j],
    decreases entries.len(),
{
    let shorter = entries.drop_last();
    let before = places_by_name(name, shorter);
    if j < before.len() {
        law_places_by_name_are_of_the_name(name, shorter, j);
        let i = choose|i: int|
            0 <= i < shorter.len() && match_text((#[trigger] shorter[i]).display_name@) == name
                && sanitized(shorter[i].install_location@) == before[j];
        assert(entries[i] == shorter[i]);
        assert(match_text(entries[i].display_name@) == name);
    } else {
        let i = entries.len() - 1;
        assert(match_text(entries[i].display_name@) == name);
    }
}

/// An application is named after its executable; where that has no name, after
/// its directory.
pub proof fn law_how_found_applications_are_named(found: FoundApp)
    ensures
        path::last_stem(found.exe_path@).len() > 0 ==> found_name(found) == path::last_stem(
            found.exe_path@,
        ),
        path::last_stem(found.exe_path@).len() == 0 && path::last_name(found.directory@) is Some
            ==> found_name(found) == path::last_name(found.directory@)->0,
        path::last_stem(found.exe_path@).len() == 0 && path::last_name(found.directory@) is None
            ==> found_name(found).len() == 0,
{
}

/// What a directory that is a link leads to counts as seen; one that is no link
/// adds nothing.
pub proof fn law_where_a_link_leads_counts(found: FoundApp, target: Seq<char>)
    ensures
        found.is_link ==> linked_places(found, Some(target)).contains(normalized_path(target)),
        !found.is_link ==> linked_places(found, Some(target)).len() == 0,
        linked_places(found, None).len() == 0,
{
    if found.is_link {
        assert(linked_places(found, Some(target))[0] == normalized_path(target));
    }
}

/// Of the keys of an application the one that is named is recorded first, and
/// behind it those below, unless they are too many. Nothing is recorded of a
/// key that cannot be opened.
pub proof fn law_which_keys_are_recorded(
    path: Seq<char>,
    hive: Hive,
    key: Seq<char>,
    children: Vec<String>,
    i: int,
)
    requires
        key_of(text::trimmed(path, CharSet::Whitespace)) == Some((hive, key)),
        text::trimmed(path, CharSet::Whitespace).len() > 0,
        0 <= i < children@.len(),
        i < MAX_ENTRIES_PER_GROUP,
    ensures
        recorded_keys(Some(path), Some(children)).len() > 0,
        recorded_keys(Some(path), Some(children))[0] == below(hive_name(hive)@, key),
        recorded_keys(Some(path), Some(children)).contains(
            below(below(hive_name(hive)@, key), children@[i]@),
        ),
        recorded_keys(Some(path), None).len() == 0,
        recorded_keys(None, Some(children)).len() == 0,
{
    let kept = if children@.len() <= MAX_ENTRIES_PER_GROUP {
        children@
    } else {
        children@.take(MAX_ENTRIES_PER_GROUP as int)
    };
    assert(kept[i] == children@[i]);
    lemma_children_follow(below(hive_name(hive)@, key), kept, i);
}

proof fn lemma_children_follow(key: Seq<char>, children: Seq<String>, i: int)
    requires
        0 <= i < children.len(),
    ensures
        keys_with_children(key, children).len() == children.len() + 1,
        keys_with_children(key, children)[0] == key,
        keys_with_children(key, children)[i + 1] == below(key, children[i]@),
    decreases children.len(),
{
    let shorter = children.drop_last();
    if shorter.len() > 0 {
        lemma_children_follow(
            key,
            shorter,
            if i < shorter.len() {
                i
            } else {
                0
            },
        );
    } else {
        assert(keys_with_children(key, shorter) =~= seq![key]);
    }
}

/// The target of a shortcut is the text from its place up to the first zero.
pub proof fn law_target_ends_at_the_first_zero(
    data: Seq<u8>,
    start: int,
    end: int,
    r: Option<Seq<char>>,
)
    requires
        is_target(data, r),
        path_offset(data) == Some(start),
        start <= end < data.len(),
        data[end] == 0,
        forall|i: int| start <= i < end ==> #[trigger] data[i] != 0,
    ensures
        vstd::utf8::valid_utf8(data.subrange(start, end)) ==> r == Some(
            vstd::utf8::decode_utf8(data.subrange(start, end)),
        ),
        !vstd::utf8::valid_utf8(data.subrange(start, end)) ==> r is None,
{
    let other = choose|other: int|
        is_text_end(data, start, other) && #[trigger] is_decoding(data.subrange(start, other), r);
    if other < end {
        assert(data[other] != 0);
    } else if other > end {
        assert(data[end] != 0);
    }
    assert(other == end);
}

} // verus!
