//! What is promised of the names that are known: which words tell nothing of an
//! application, which directories hold none, and where the registry is searched.

use vstd::prelude::*;

use super::keywords::{generic_words, is_telling};
use super::launch::elevation_marks;
use super::locate::shared_parts;
use super::registry::{
    class_root_table, publisher_root_table, uninstall_root_table, Hive, RegistryRoot,
};
use super::scan_rules::{
    config_extensions, dev_dirs, extended_blacklist, extension_of, is_blacklisted, is_skippable,
    is_support, name_of, runtime_dirs, support_dirs, system_parts, transient_dirs, DirItem,
};
use super::scanner::{is_registry_app, program_directory_names, store_parts, RegistryEntry};
use super::survey::is_config_file;
use super::traces::{generic_tokens, is_telling_token};
use super::uninstall_search::{is_uninstaller, uninstaller_marks};
use super::uninstall_snapshot::{is_recorded, volatile_names};
use crate::path;
use crate::text;

verus! {

/// A word that many names hold tells no application from another.
pub proof fn law_words_that_tell_nothing(token: Seq<char>)
    ensures
        text::among(
            seq![
                "app",
                "apps",
                "group",
                "company",
                "co",
                "ltd",
                "inc",
                "corp",
                "corporation",
                "limited",
                "tech",
                "technology",
                "software",
                "network",
                "internet",
                "china",
                "beijing",
                "shanghai",
                "windows",
                "microsoft",
                "公司",
                "集团",
                "技术",
                "网络",
                "软件",
                "中国",
                "有限",
                "科技",
            ],
            token,
        ) ==> !is_telling(token),
{
    let listed = seq![
        "app",
        "apps",
        "group",
        "company",
        "co",
        "ltd",
        "inc",
        "corp",
        "corporation",
        "limited",
        "tech",
        "technology",
        "software",
        "network",
        "internet",
        "china",
        "beijing",
        "shanghai",
        "windows",
        "microsoft",
        "公司",
        "集团",
        "技术",
        "网络",
        "软件",
        "中国",
        "有限",
        "科技",
    ];
    assert(listed =~= generic_words());
}

/// A word that many services are called by tells no application from another.
pub proof fn law_tokens_that_tell_nothing(token: Seq<char>)
    ensures
        text::among(
            seq![
                "app",
                "application",
                "service",
                "services",
                "update",
                "updater",
                "setup",
                "install",
                "installer",
                "helper",
                "client",
                "server",
                "manager",
                "launcher",
                "runtime",
                "x64",
                "x86",
                "the",
                "and",
                "for",
                "inc",
                "ltd",
                "llc",
                "corp",
                "version",
                "win",
                "windows",
                "microsoft",
            ],
            token,
        ) ==> !is_telling_token(token),
{
    let listed = seq![
        "app",
        "application",
        "service",
        "services",
        "update",
        "updater",
        "setup",
        "install",
        "installer",
        "helper",
        "client",
        "server",
        "manager",
        "launcher",
        "runtime",
        "x64",
        "x86",
        "the",
        "and",
        "for",
        "inc",
        "ltd",
        "llc",
        "corp",
        "version",
        "win",
        "windows",
        "microsoft",
    ];
    assert(listed =~= generic_tokens());
}

/// No application is looked for in a directory for passing files, whatever the
/// case of its name.
pub proof fn law_directories_for_passing_files_are_skipped(name: Seq<char>)
    ensures
        text::among(
            seq![
                "download",
                "downloads",
                "temp",
                "tmp",
                "cache",
                "caches",
                "updater",
                "updates",
                "installation",
                "installers",
            ],
            text::lowercase(name),
        ) ==> is_skippable(name),
{
    let listed = seq![
        "download",
        "downloads",
        "temp",
        "tmp",
        "cache",
        "caches",
        "updater",
        "updates",
        "installation",
        "installers",
    ];
    assert(listed =~= transient_dirs());
}

/// No application is looked for in a directory that developers make, whatever
/// the case of its name.
pub proof fn law_directories_of_developers_are_skipped(name: Seq<char>)
    ensures
        text::among(
            seq![
                "node_modules",
                ".git",
                "target",
                "dist",
                "build",
                "__pycache__",
                ".venv",
                "venv",
                ".idea",
                ".vs",
                "vendor",
                "bower_components",
                ".cache",
                "obj",
                "debug",
                "release",
                "packages",
            ],
            text::lowercase(name),
        ) ==> is_skippable(name),
{
    let listed = seq![
        "node_modules",
        ".git",
        "target",
        "dist",
        "build",
        "__pycache__",
        ".venv",
        "venv",
        ".idea",
        ".vs",
        "vendor",
        "bower_components",
        ".cache",
        "obj",
        "debug",
        "release",
        "packages",
    ];
    assert(listed =~= dev_dirs());
}

/// No application is looked for in a runtime, whatever the case of its name.
pub proof fn law_runtimes_are_skipped(name: Seq<char>)
    ensures
        text::among(
            seq![
                "jbr",
                "jre",
                "jdk",
                "rt",
                "gradle",
                "maven",
            ],
            text::lowercase(name),
        ) ==> is_skippable(name),
{
    let listed = seq![
        "jbr",
        "jre",
        "jdk",
        "rt",
        "gradle",
        "maven",
    ];
    assert(listed =~= runtime_dirs());
}

/// Only a directory can be one of support, and it is by its name in either case.
pub proof fn law_directories_of_support(item: DirItem)
    ensures
        text::among(
            seq![
                "resources",
                "locales",
                "platforms",
                "translations",
                "data",
                "lib",
                "bin",
                "plugins",
                "modules",
                "languages",
                "help",
                "docs",
                "assets",
                "static",
                "config",
                "tools",
                "runtime",
                "scripts",
            ],
            text::lowercase(name_of(item.path@)),
        ) ==> is_support(item) == item.is_directory,
{
    let listed = seq![
        "resources",
        "locales",
        "platforms",
        "translations",
        "data",
        "lib",
        "bin",
        "plugins",
        "modules",
        "languages",
        "help",
        "docs",
        "assets",
        "static",
        "config",
        "tools",
        "runtime",
        "scripts",
    ];
    assert(listed =~= support_dirs());
}

/// A file with one of these extensions holds settings.
pub proof fn law_files_of_settings(item: DirItem, extension: Seq<char>)
    requires
        !item.is_directory,
        item.is_file,
        extension_of(item) == Some(extension),
    ensures
        text::among(
            seq![
                "ini",
                "cfg",
                "json",
                "xml",
                "toml",
                "yaml",
                "yml",
                "conf",
            ],
            extension,
        ) ==> is_config_file(item),
{
    let listed = seq![
        "ini",
        "cfg",
        "json",
        "xml",
        "toml",
        "yaml",
        "yml",
        "conf",
    ];
    assert(listed =~= config_extensions());
}

/// Nothing is looked for below these directories of the system.
pub proof fn law_directories_of_the_system_are_not_searched(path: Seq<char>, temp: Option<Seq<char>>)
    ensures
        text::contains_one(
            seq![
                "\\windows\\temp",
                "\\windows\\winsxs",
                "\\windows\\servicing",
                "\\windows\\softwaredistribution",
                "\\programdata\\package cache",
                "\\program files\\common files",
                "\\program files (x86)\\common files",
                "\\program files\\dotnet",
                "\\program files (x86)\\dotnet",
                "\\program files\\windowsapps",
                "\\program files (x86)\\windowsapps",
                "\\windowsapps\\",
                "\\program files\\modifiablewindowsapps",
            ],
            text::lowercase(path),
        ) ==> is_blacklisted(path, temp),
{
    let listed = seq![
        "\\windows\\temp",
        "\\windows\\winsxs",
        "\\windows\\servicing",
        "\\windows\\softwaredistribution",
        "\\programdata\\package cache",
        "\\program files\\common files",
        "\\program files (x86)\\common files",
        "\\program files\\dotnet",
        "\\program files (x86)\\dotnet",
        "\\program files\\windowsapps",
        "\\program files (x86)\\windowsapps",
        "\\windowsapps\\",
        "\\program files\\modifiablewindowsapps",
    ];
    assert(listed =~= extended_blacklist());
}

/// What lies in one of these directories is the system's.
pub proof fn law_parts_of_the_system(path: Seq<char>)
    ensures
        text::contains_one(
            seq![
                "\\windows\\system32",
                "\\windows\\syswow64",
                "\\windows\\systemapps",
                "\\program files\\windowsapps",
                "\\program files (x86)\\windowsapps",
            ],
            path,
        ) ==> text::contains_one(system_parts(), path),
{
    let listed = seq![
        "\\windows\\system32",
        "\\windows\\syswow64",
        "\\windows\\systemapps",
        "\\program files\\windowsapps",
        "\\program files (x86)\\windowsapps",
    ];
    assert(listed =~= system_parts());
}

/// What lies in one of these directories belongs to several applications.
pub proof fn law_shared_directories(path: Seq<char>)
    ensures
        text::contains_one(
            seq![
                "\\windows\\system32",
                "\\windows\\syswow64",
                "\\common files\\",
            ],
            path,
        ) ==> text::contains_one(shared_parts(), path),
{
    let listed = seq![
        "\\windows\\system32",
        "\\windows\\syswow64",
        "\\common files\\",
    ];
    assert(listed =~= shared_parts());
}

/// What lies in the directories of the store is no application of the registry.
pub proof fn law_applications_of_the_store_are_left_out(entry: RegistryEntry)
    ensures
        text::contains_one(
            seq![
                "\\windowsapps\\",
                "\\program files\\windowsapps",
                "\\program files (x86)\\windowsapps",
            ],
            text::lowercase(entry.install_location@),
        ) ==> !is_registry_app(entry),
{
    let listed = seq![
        "\\windowsapps\\",
        "\\program files\\windowsapps",
        "\\program files (x86)\\windowsapps",
    ];
    assert(listed =~= store_parts());
}

/// A program is an uninstaller by its name in either case.
pub proof fn law_names_of_uninstallers(file: Seq<char>)
    requires
        path::last_extension(file) == Some("exe"@),
    ensures
        text::contains_one(
            seq![
                "unin",
                "uninstall",
                "卸载",
            ],
            text::lowercase(path::last_stem(file)),
        ) ==> is_uninstaller(file),
{
    let listed = seq![
        "unin",
        "uninstall",
        "卸载",
    ];
    assert(listed =~= uninstaller_marks());
}

/// What comes and goes by itself is not recorded, whatever the case of its name.
pub proof fn law_passing_names_are_not_recorded(name: Seq<char>)
    ensures
        text::among(
            seq![
                "temp",
                "tmp",
                "microsoft",
                "packages",
                "crashdumps",
                "d3dscache",
                "connecteddevicesplatform",
                "elevateddiagnostics",
            ],
            text::lowercase(name),
        ) ==> !is_recorded(name),
{
    let listed = seq![
        "temp",
        "tmp",
        "microsoft",
        "packages",
        "crashdumps",
        "d3dscache",
        "connecteddevicesplatform",
        "elevateddiagnostics",
    ];
    assert(listed =~= volatile_names());
}

/// A failure that speaks of rights is one for lack of them.
pub proof fn law_failures_for_lack_of_rights(reason: Seq<char>)
    ensures
        text::contains_one(
            seq![
                "os error 740",
                "elevation",
                "需要提升",
            ],
            reason,
        ) ==> text::contains_one(elevation_marks(), reason),
{
    let listed = seq![
        "os error 740",
        "elevation",
        "需要提升",
    ];
    assert(listed =~= elevation_marks());
}

/// Users keep their programs in directories of these names.
pub proof fn law_directories_of_programs(name: Seq<char>)
    ensures
        text::among(
            seq![
                "software",
                "app",
                "apps",
                "tools",
                "games",
                "programs",
                "applications",
                "portable",
            ],
            name,
        ) ==> text::among(program_directory_names(), name),
{
    let listed = seq![
        "software",
        "app",
        "apps",
        "tools",
        "games",
        "programs",
        "applications",
        "portable",
    ];
    assert(listed =~= program_directory_names());
}

/// Whether a table holds a place of the registry.
pub open spec fn has_root(roots: Seq<RegistryRoot>, hive: Hive, place: Seq<char>) -> bool {
    exists|i: int|
        0 <= i < roots.len() && (#[trigger] roots[i]).hive == hive && roots[i].path@ == place
}

/// The entries of the machine and those of the user are searched, and of the
/// machine also those of programs for another width of words.
pub proof fn law_where_entries_are_searched(hive: Hive)
    ensures
        has_root(
            uninstall_root_table(),
            hive,
            "SOFTWARE\\Microsoft\\Windows\\CurrentVersion\\Uninstall"@,
        ),
        has_root(
            uninstall_root_table(),
            Hive::LocalMachine,
            "SOFTWARE\\WOW6432Node\\Microsoft\\Windows\\CurrentVersion\\Uninstall"@,
        ),
{
    let roots = uninstall_root_table();
    assert(roots[0].hive == Hive::LocalMachine && roots[2].hive == Hive::CurrentUser);
    assert(roots[1].hive == Hive::LocalMachine);
}

/// The keys of publishers and the associations of files are searched both of
/// the machine and of the user.
pub proof fn law_where_keys_are_searched(hive: Hive)
    ensures
        has_root(publisher_root_table(), hive, "SOFTWARE"@),
        has_root(publisher_root_table(), hive, "SOFTWARE\\WOW6432Node"@),
        has_root(class_root_table(), hive, "SOFTWARE\\Classes\\Applications"@),
{
    let publishers = publisher_root_table();
    let classes = class_root_table();
    assert(publishers[0].hive == Hive::LocalMachine && publishers[2].hive == Hive::CurrentUser);
    assert(publishers[1].hive == Hive::LocalMachine && publishers[3].hive == Hive::CurrentUser);
    assert(classes[0].hive == Hive::LocalMachine && classes[1].hive == Hive::CurrentUser);
}

} // verus!
