//! What file and directory names say about whether they belong to an
//! application.

#![verifier::loop_isolation(false)]

use vstd::prelude::*;

use crate::path;
use crate::text;
use crate::text::CharSet;

verus! {

/// A path without surrounding blanks and quotes and without trailing
/// separators, in lower case.
pub open spec fn normalized_path(path: Seq<char>) -> Seq<char> {
    text::lowercase(
        text::trimmed_end(
            text::trimmed(text::trimmed(path, CharSet::Whitespace), CharSet::One('"')),
            CharSet::Two('\\', '/'),
        ),
    )
}

/// A path in the form in which paths are compared.
pub fn normalize_path(path: &str) -> (r: String)
    ensures
        r@ == normalized_path(path@),
{
    let blank = text::trim(path, CharSet::Whitespace);
    let quoted = text::trim(blank.as_str(), CharSet::One('"'));
    let tail = text::trim_end(quoted.as_str(), CharSet::Two('\\', '/'));
    text::to_lowercase(tail.as_str())
}

/// Whether four digits stand in a row.
pub open spec fn has_four_digits(s: Seq<char>) -> bool {
    exists|i: int| #[trigger] four_digits_at(s, i)
}

pub open spec fn four_digits_at(s: Seq<char>, i: int) -> bool {
    0 <= i && i + 4 <= s.len() && text::is_ascii_digit(s[i]) && text::is_ascii_digit(s[i + 1])
        && text::is_ascii_digit(s[i + 2]) && text::is_ascii_digit(s[i + 3])
}

/// Whether a dot stands between two digits.
pub open spec fn has_dotted_digits(s: Seq<char>) -> bool {
    exists|i: int| #[trigger] dotted_digits_at(s, i)
}

pub open spec fn dotted_digits_at(s: Seq<char>, i: int) -> bool {
    0 <= i && i + 3 <= s.len() && text::is_ascii_digit(s[i]) && s[i + 1] == '.'
        && text::is_ascii_digit(s[i + 2])
}

fn is_digit(c: char) -> (r: bool)
    ensures
        r == text::is_ascii_digit(c),
{
    '0' <= c && c <= '9'
}

fn find_four_digits(s: &str) -> (r: bool)
    ensures
        r == has_four_digits(s@),
{
    let v = text::chars_of(s);
    let mut i: usize = 0;
    while i < v.len() && v.len() - i >= 4
        invariant
            v@ == s@,
            i <= v@.len(),
            forall|j: int| 0 <= j < i ==> !#[trigger] four_digits_at(s@, j),
        decreases v@.len() - i,
    {
        if is_digit(v[i]) && is_digit(v[i + 1]) && is_digit(v[i + 2]) && is_digit(v[i + 3]) {
            assert(four_digits_at(s@, i as int));
            return true;
        }
        i = i + 1;
    }
    false
}

fn find_dotted_digits(s: &str) -> (r: bool)
    ensures
        r == has_dotted_digits(s@),
{
    let v = text::chars_of(s);
    let mut i: usize = 0;
    while i < v.len() && v.len() - i >= 3
        invariant
            v@ == s@,
            i <= v@.len(),
            forall|j: int| 0 <= j < i ==> !#[trigger] dotted_digits_at(s@, j),
        decreases v@.len() - i,
    {
        if is_digit(v[i]) && v[i + 1] == '.' && is_digit(v[i + 2]) {
            assert(dotted_digits_at(s@, i as int));
            return true;
        }
        i = i + 1;
    }
    false
}

pub open spec fn installer_words() -> Seq<&'static str> {
    seq!["setup", "install", "update", "upgrader", "uninst"]
}

pub open spec fn installer_endings() -> Seq<&'static str> {
    seq!["_x64.exe", "_x86.exe", ".msi"]
}

/// Whether a file name in lower case is that of an installer, an updater or an
/// uninstaller.
pub open spec fn is_installer_name(name: Seq<char>) -> bool {
    ||| text::contains_one(installer_words(), name)
    ||| text::has_prefix(name, "unins"@)
    ||| text::ends_with_one(installer_endings(), name)
    ||| has_four_digits(name) && text::byte_len(name) > 10
    ||| has_dotted_digits(name)
}

/// Whether a file name in lower case is that of an installer, an updater or an
/// uninstaller.
pub fn is_installer_like_exe(name: &str) -> (r: bool)
    ensures
        r == is_installer_name(name@),
{
    let words = vec!["setup", "install", "update", "upgrader", "uninst"];
    assert(words@ =~= installer_words());
    let endings = vec!["_x64.exe", "_x86.exe", ".msi"];
    assert(endings@ =~= installer_endings());
    text::contains_any(&words, name) || text::starts_with(name, "unins") || text::ends_with_any(
        &endings,
        name,
    ) || (find_four_digits(name) && text::byte_length(name) > 10) || find_dotted_digits(name)
}

/// Whether a `v` of a text is followed by a digit.
pub open spec fn has_v_before_digit(s: Seq<char>) -> bool {
    exists|i: int|
        0 <= i && i + 1 < s.len() && #[trigger] s[i] == 'v' && text::is_ascii_digit(s[i + 1])
}

/// Whether a file name without extension holds a version: four digits in a
/// row, a `v` before a digit, or a dot between digits.
pub open spec fn has_version(stem: Seq<char>) -> bool {
    let s = text::lowercase(stem);
    has_four_digits(s) || has_v_before_digit(s) || has_dotted_digits(s)
}

fn find_v_before_digit(s: &str) -> (r: bool)
    ensures
        r == has_v_before_digit(s@),
{
    let v = text::chars_of(s);
    let mut i: usize = 0;
    while i < v.len()
        invariant
            v@ == s@,
            i <= v@.len(),
            forall|j: int|
                0 <= j < i && j + 1 < v@.len() ==> !(#[trigger] v@[j] == 'v'
                    && text::is_ascii_digit(v@[j + 1])),
        decreases v@.len() - i,
    {
        if v[i] == 'v' && v.len() - i > 1 && is_digit(v[i + 1]) {
            assert(s@[i as int] == 'v');
            return true;
        }
        i = i + 1;
    }
    false
}

/// Whether a file name without extension holds a version.
pub fn has_version_pattern_in_stem(stem: &str) -> (r: bool)
    ensures
        r == has_version(stem@),
{
    let lower = text::to_lowercase(stem);
    find_four_digits(lower.as_str()) || find_v_before_digit(lower.as_str()) || find_dotted_digits(
        lower.as_str(),
    )
}

pub open spec fn dev_dirs() -> Seq<&'static str> {
    seq![
        "node_modules",
        ".git",
        "target",
        "dist",
        "build",
        "__pycache__",
        ".venv",
        "venv",
        ".idea",
        ".vs",
        "vendor",
        "bower_components",
        ".cache",
        "obj",
        "debug",
        "release",
        "packages",
    ]
}

pub open spec fn runtime_dirs() -> Seq<&'static str> {
    seq!["jbr", "jre", "jdk", "rt", "gradle", "maven"]
}

pub open spec fn transient_dirs() -> Seq<&'static str> {
    seq![
        "download",
        "downloads",
        "temp",
        "tmp",
        "cache",
        "caches",
        "updater",
        "updates",
        "installation",
        "installers",
    ]
}

pub open spec fn support_dirs() -> Seq<&'static str> {
    seq![
        "resources",
        "locales",
        "platforms",
        "translations",
        "data",
        "lib",
        "bin",
        "plugins",
        "modules",
        "languages",
        "help",
        "docs",
        "assets",
        "static",
        "config",
        "tools",
        "runtime",
        "scripts",
    ]
}

/// Whether a directory belongs to development.
pub fn is_dev_directory(name: &str) -> (r: bool)
    ensures
        r == text::among(dev_dirs(), text::lowercase(name@)),
{
    let names = vec![
        "node_modules",
        ".git",
        "target",
        "dist",
        "build",
        "__pycache__",
        ".venv",
        "venv",
        ".idea",
        ".vs",
        "vendor",
        "bower_components",
        ".cache",
        "obj",
        "debug",
        "release",
        "packages",
    ];
    assert(names@ =~= dev_dirs());
    let lower = text::to_lowercase(name);
    text::is_among(&names, lower.as_str())
}

/// Whether a directory holds a bundled runtime.
pub fn is_bundled_runtime_dir(name: &str) -> (r: bool)
    ensures
        r == text::among(runtime_dirs(), text::lowercase(name@)),
{
    let names = vec!["jbr", "jre", "jdk", "rt", "gradle", "maven"];
    assert(names@ =~= runtime_dirs());
    let lower = text::to_lowercase(name);
    text::is_among(&names, lower.as_str())
}

/// Whether no application is installed in a directory of this name.
pub open spec fn is_skippable(name: Seq<char>) -> bool {
    let lower = text::lowercase(name);
    text::among(transient_dirs(), lower) || text::among(dev_dirs(), lower) || text::among(
        runtime_dirs(),
        lower,
    )
}

/// Whether no application is installed in a directory of this name.
pub fn is_skippable_dir(name: &str) -> (r: bool)
    ensures
        r == is_skippable(name@),
{
    let names = vec![
        "download",
        "downloads",
        "temp",
        "tmp",
        "cache",
        "caches",
        "updater",
        "updates",
        "installation",
        "installers",
    ];
    assert(names@ =~= transient_dirs());
    let lower = text::to_lowercase(name);
    text::is_among(&names, lower.as_str()) || is_dev_directory(name) || is_bundled_runtime_dir(name)
}

/// Whether a directory of this name accompanies an application.
pub fn is_supporting_subdir(name: &str) -> (r: bool)
    ensures
        r == text::among(support_dirs(), text::lowercase(name@)),
{
    let names = vec![
        "resources",
        "locales",
        "platforms",
        "translations",
        "data",
        "lib",
        "bin",
        "plugins",
        "modules",
        "languages",
        "help",
        "docs",
        "assets",
        "static",
        "config",
        "tools",
        "runtime",
        "scripts",
    ];
    assert(names@ =~= support_dirs());
    let lower = text::to_lowercase(name);
    text::is_among(&names, lower.as_str())
}

pub open spec fn component_words() -> Seq<&'static str> {
    seq![
        "update for",
        "security update",
        "hotfix",
        "language pack",
        "service pack",
        "deploymentagent",
        "darkmodecheck",
    ]
}

pub open spec fn component_beginnings() -> Seq<&'static str> {
    seq![
        "microsoft .net",
        "microsoft visual c++",
        "microsoft.windowsappruntime",
        "microsoft.ui.xaml",
        "microsoft.vclibs",
        "microsoft.net.native",
    ]
}

/// Whether a display name is that of a patch, a language pack, a runtime or
/// another part of the system. A name that begins with `KB` is one exactly if
/// the rest is a number.
pub open spec fn is_component_name(name: Seq<char>) -> bool {
    if text::has_prefix(name, "KB"@) && name.len() > 2 {
        forall|i: int| 2 <= i < name.len() ==> text::is_ascii_digit(#[trigger] name[i])
    } else {
        text::contains_one(component_words(), text::lowercase(name)) || text::begins_with_one(
            component_beginnings(),
            text::lowercase(name),
        )
    }
}

/// Whether a display name is that of a part of the system.
pub fn is_system_component(display_name: &str) -> (r: bool)
    ensures
        r == is_component_name(display_name@),
{
    let v = text::chars_of(display_name);
    if text::starts_with(display_name, "KB") && v.len() > 2 {
        let mut i: usize = 2;
        while i < v.len()
            invariant
                v@ == display_name@,
                2 <= i <= v@.len(),
                forall|j: int| 2 <= j < i ==> text::is_ascii_digit(#[trigger] v@[j]),
            decreases v@.len() - i,
        {
            if !is_digit(v[i]) {
                assert(!text::is_ascii_digit(display_name@[i as int]));
                return false;
            }
            i = i + 1;
        }
        return true;
    }
    let words = vec![
        "update for",
        "security update",
        "hotfix",
        "language pack",
        "service pack",
        "deploymentagent",
        "darkmodecheck",
    ];
    assert(words@ =~= component_words());
    let beginnings = vec![
        "microsoft .net",
        "microsoft visual c++",
        "microsoft.windowsappruntime",
        "microsoft.ui.xaml",
        "microsoft.vclibs",
        "microsoft.net.native",
    ];
    assert(beginnings@ =~= component_beginnings());
    let lower = text::to_lowercase(display_name);
    text::contains_any(&words, lower.as_str()) || text::starts_with_any(
        &beginnings,
        lower.as_str(),
    )
}

pub open spec fn core_blacklist() -> Seq<&'static str> {
    seq!["windows", "$recycle.bin", "system volume information"]
}

pub open spec fn extended_blacklist() -> Seq<&'static str> {
    seq![
        "\\windows\\temp",
        "\\windows\\winsxs",
        "\\windows\\servicing",
        "\\windows\\softwaredistribution",
        "\\programdata\\package cache",
        "\\program files\\common files",
        "\\program files (x86)\\common files",
        "\\program files\\dotnet",
        "\\program files (x86)\\dotnet",
        "\\program files\\windowsapps",
        "\\program files (x86)\\windowsapps",
        "\\windowsapps\\",
        "\\program files\\modifiablewindowsapps",
    ]
}

/// Whether a directory is known not to hold applications, given the directory
/// for temporary files, where there is one.
pub open spec fn is_blacklisted(path: Seq<char>, temp: Option<Seq<char>>) -> bool {
    let lower = text::lowercase(path);
    let name = path::last_name(path);
    ||| name is Some && text::among(core_blacklist(), text::lowercase(name->0))
    ||| text::has_suffix(lower, "\\windows.old"@)
    ||| text::contains_one(extended_blacklist(), lower)
    ||| temp is Some && text::has_prefix(lower, normalized_path(temp->0))
}

/// Whether a directory is known not to hold applications.
pub fn is_blacklisted_path(path: &str, temp: &Option<String>) -> (r: bool)
    ensures
        r == is_blacklisted(path@, text::view_of(*temp)),
{
    let core = vec!["windows", "$recycle.bin", "system volume information"];
    assert(core@ =~= core_blacklist());
    let extended = vec![
        "\\windows\\temp",
        "\\windows\\winsxs",
        "\\windows\\servicing",
        "\\windows\\softwaredistribution",
        "\\programdata\\package cache",
        "\\program files\\common files",
        "\\program files (x86)\\common files",
        "\\program files\\dotnet",
        "\\program files (x86)\\dotnet",
        "\\program files\\windowsapps",
        "\\program files (x86)\\windowsapps",
        "\\windowsapps\\",
        "\\program files\\modifiablewindowsapps",
    ];
    assert(extended@ =~= extended_blacklist());
    if let Some(name) = path::last_name_of(path) {
        let lower = text::to_lowercase(name.as_str());
        if text::is_among(&core, lower.as_str()) {
            return true;
        }
    }
    let lower = text::to_lowercase(path);
    if text::ends_with(lower.as_str(), "\\windows.old") || text::contains_any(
        &extended,
        lower.as_str(),
    ) {
        return true;
    }
    match temp {
        Some(temp) => {
            let prefix = normalize_path(temp.as_str());
            text::starts_with(lower.as_str(), prefix.as_str())
        },
        None => false,
    }
}

pub open spec fn system_parts() -> Seq<&'static str> {
    seq![
        "\\windows\\system32",
        "\\windows\\syswow64",
        "\\windows\\systemapps",
        "\\program files\\windowsapps",
        "\\program files (x86)\\windowsapps",
    ]
}

/// Whether a path lies in a directory of the system.
pub fn is_system_path(path: &str) -> (r: bool)
    ensures
        r == text::contains_one(system_parts(), text::lowercase(path@)),
{
    let parts = vec![
        "\\windows\\system32",
        "\\windows\\syswow64",
        "\\windows\\systemapps",
        "\\program files\\windowsapps",
        "\\program files (x86)\\windowsapps",
    ];
    assert(parts@ =~= system_parts());
    let lower = text::to_lowercase(path);
    text::contains_any(&parts, lower.as_str())
}

pub open spec fn container_endings() -> Seq<&'static str> {
    seq![
        "\\appdata\\local",
        "\\appdata\\roaming",
        "\\appdata\\locallow",
        "\\appdata\\local\\programs",
        "\\appdata",
        "\\desktop",
        "\\downloads",
        "\\programdata",
        "\\users\\public",
    ]
}

/// Whether a text is a drive letter and a colon.
pub open spec fn is_drive(s: Seq<char>) -> bool {
    s.len() == 2 && text::is_ascii(s[0]) && s[1] == ':'
}

/// Whether a directory only collects applications or files and is not the
/// home of one application.
pub open spec fn is_container(path: Seq<char>) -> bool {
    let lower = text::trimmed_end(text::lowercase(path), CharSet::Two('\\', '/'));
    ||| text::ends_with_one(container_endings(), lower)
    ||| path::components(path).len() <= 1
    ||| is_drive(lower)
}

/// Whether a directory is not the home of one application.
pub fn is_container_directory(path: &str) -> (r: bool)
    ensures
        r == is_container(path@),
{
    let endings = vec![
        "\\appdata\\local",
        "\\appdata\\roaming",
        "\\appdata\\locallow",
        "\\appdata\\local\\programs",
        "\\appdata",
        "\\desktop",
        "\\downloads",
        "\\programdata",
        "\\users\\public",
    ];
    assert(endings@ =~= container_endings());
    let lower = text::to_lowercase(path);
    let trimmed = text::trim_end(lower.as_str(), CharSet::Two('\\', '/'));
    let v = text::chars_of(trimmed.as_str());
    let parts = path::components_of(path);
    assert(text::texts(parts@).len() == parts@.len());
    text::ends_with_any(&endings, trimmed.as_str()) || parts.len() <= 1 || (v.len() == 2
        && (v[0] as u32) < 128 && v[1] == ':')
}

/// An entry of a directory.
#[derive(Debug)]
pub struct DirItem {
    pub path: String,
    pub is_directory: bool,
    pub is_file: bool,
    /// Whether the name without extension looks like a random string, or is no
    /// valid text.
    pub random_stem: bool,
}

pub open spec fn config_extensions() -> Seq<&'static str> {
    seq!["ini", "cfg", "json", "xml", "toml", "yaml", "yml", "conf"]
}

/// The name of an entry; empty where it has none.
pub open spec fn name_of(path: Seq<char>) -> Seq<char> {
    match path::last_name(path) {
        Some(name) => name,
        None => seq![],
    }
}

/// The name of an entry; empty where it has none.
pub fn entry_name(path: &str) -> (r: String)
    ensures
        r@ == name_of(path@),
{
    match path::last_name_of(path) {
        Some(name) => name,
        None => {
            let r = String::new();
            assert(r@ =~= Seq::<char>::empty());
            r
        },
    }
}

/// The extension of an entry in lower case.
pub open spec fn extension_of(item: DirItem) -> Option<Seq<char>> {
    match path::last_extension(item.path@) {
        Some(e) => Some(text::lowercase(e)),
        None => None,
    }
}

/// The extension of an entry in lower case.
pub fn lower_extension(item: &DirItem) -> (r: Option<String>)
    ensures
        text::view_of(r) == extension_of(*item),
{
    match path::last_extension_of(item.path.as_str()) {
        Some(e) => Some(text::to_lowercase(e.as_str())),
        None => None,
    }
}

fn is_config_extension(extension: &str) -> (r: bool)
    ensures
        r == text::among(config_extensions(), extension@),
{
    let names = vec!["ini", "cfg", "json", "xml", "toml", "yaml", "yml", "conf"];
    assert(names@ =~= config_extensions());
    text::is_among(&names, extension)
}

/// Whether an entry is a directory that accompanies an application.
pub open spec fn is_support(item: DirItem) -> bool {
    item.is_directory && text::among(support_dirs(), text::lowercase(name_of(item.path@)))
}

fn is_support_item(item: &DirItem) -> (r: bool)
    ensures
        r == is_support(*item),
{
    item.is_directory && is_supporting_subdir(entry_name(item.path.as_str()).as_str())
}

/// Whether an entry shows that an executable beside it is installed there: it
/// is another executable, a library, a configuration file or a directory that
/// accompanies an application.
pub open spec fn is_evidence(item: DirItem, exe_path: Seq<char>) -> bool {
    &&& normalized_path(item.path@) != normalized_path(exe_path)
    &&& if item.is_directory {
        is_support(item)
    } else {
        extension_of(item) is Some && (extension_of(item)->0 == "exe"@ || extension_of(item)->0
            == "dll"@ || text::among(config_extensions(), extension_of(item)->0))
    }
}

/// Whether a directory's name and an executable's name go together.
pub open spec fn names_go_together(dir_name: Seq<char>, exe_stem: Seq<char>) -> bool {
    let d = text::lowercase(dir_name);
    let e = text::lowercase(exe_stem);
    d.len() > 0 && e.len() > 0 && (text::contains_text(d, e) || text::contains_text(e, d))
}

/// Whether a directory is the home of an executable in it, rather than a place
/// where the executable happens to lie: their names go together, or something
/// else in the directory shows it. Entries are absent where the directory
/// cannot be read.
pub fn validate_install_dir(
    dir: &str,
    exe_path: &str,
    entries: &Option<Vec<DirItem>>,
) -> (r: bool)
    ensures
        r == (names_go_together(name_of(dir@), path::last_stem(exe_path@)) || (entries is Some && exists|i: int|
            0 <= i < entries->0@.len() && is_evidence(#[trigger] entries->0@[i], exe_path@))),
{
    let d = text::to_lowercase(entry_name(dir).as_str());
    let e = text::to_lowercase(path::last_stem_of(exe_path).as_str());
    if !d.as_str().is_empty() && !e.as_str().is_empty() && (text::contains(d.as_str(), e.as_str())
        || text::contains(e.as_str(), d.as_str())) {
        return true;
    }
    let items = match entries {
        Some(items) => items,
        None => {
            return false;
        },
    };
    let own = normalize_path(exe_path);
    let mut i: usize = 0;
    while i < items.len()
        invariant
            i <= items@.len(),
            own@ == normalized_path(exe_path@),
            forall|j: int| 0 <= j < i ==> !is_evidence(#[trigger] items@[j], exe_path@),
        decreases items@.len() - i,
    {
        let item = &items[i];
        let key = normalize_path(item.path.as_str());
        if !text::same(key.as_str(), own.as_str()) {
            if item.is_directory {
                if is_support_item(item) {
                    return true;
                }
            } else if let Some(extension) = lower_extension(item) {
                if text::same(extension.as_str(), "exe") || text::same(extension.as_str(), "dll")
                    || is_config_extension(extension.as_str()) {
                    assert(is_evidence(items@[i as int], exe_path@));
                    return true;
                }
            }
        }
        i = i + 1;
    }
    false
}

} // verus!
