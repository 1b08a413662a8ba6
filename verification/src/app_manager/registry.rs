//! Registry keys: where they are and which of them may be deleted.

#![verifier::loop_isolation(false)]

use vstd::prelude::*;

use super::keywords::{
    match_text, matches_keywords, normalize_match_text, speaks_of_one,
};
use crate::text;
use crate::text::CharSet;

verus! {

/// A top-level part of the registry.
#[derive(Clone, Copy, Debug, PartialEq, Eq, Structural)]
pub enum Hive {
    LocalMachine,
    CurrentUser,
}

/// A key: the hive it is in and its path below it.
#[derive(Debug)]
pub struct RegistryKey {
    pub hive: Hive,
    pub path: String,
}

/// The hive and the path below it that a full path names.
pub open spec fn key_of(path: Seq<char>) -> Option<(Hive, Seq<char>)> {
    if text::has_prefix(path, "HKLM\\"@) {
        Some((Hive::LocalMachine, path.skip(5)))
    } else if text::has_prefix(path, "HKEY_LOCAL_MACHINE\\"@) {
        Some((Hive::LocalMachine, path.skip(19)))
    } else if text::has_prefix(path, "HKCU\\"@) {
        Some((Hive::CurrentUser, path.skip(5)))
    } else if text::has_prefix(path, "HKEY_CURRENT_USER\\"@) {
        Some((Hive::CurrentUser, path.skip(18)))
    } else {
        None
    }
}

pub open spec fn key_view(key: Option<RegistryKey>) -> Option<(Hive, Seq<char>)> {
    match key {
        Some(key) => Some((key.hive, key.path@)),
        None => None,
    }
}

/// Reads a full path; absent where it names no hive that is known.
pub fn parse_registry_path(path: &str) -> (r: Option<RegistryKey>)
    ensures
        key_view(r) == key_of(path@),
{
    proof {
        reveal_strlit("HKLM\\");
        reveal_strlit("HKEY_LOCAL_MACHINE\\");
        reveal_strlit("HKCU\\");
        reveal_strlit("HKEY_CURRENT_USER\\");
    }
    let v = text::chars_of(path);
    let (hive, from): (Hive, usize) = if text::starts_with(path, "HKLM\\") {
        (Hive::LocalMachine, 5)
    } else if text::starts_with(path, "HKEY_LOCAL_MACHINE\\") {
        (Hive::LocalMachine, 19)
    } else if text::starts_with(path, "HKCU\\") {
        (Hive::CurrentUser, 5)
    } else if text::starts_with(path, "HKEY_CURRENT_USER\\") {
        (Hive::CurrentUser, 18)
    } else {
        return None;
    };
    let rest = text::string_of(&v, from, v.len());
    assert(rest@ =~= path@.skip(from as int));
    Some(RegistryKey { hive, path: rest })
}

/// What a key holds; the values that it lacks are empty.
#[derive(Debug)]
pub struct KeyFacts {
    /// Whether the key can be opened for reading.
    pub opens: bool,
    /// Whether it has neither subkeys nor values.
    pub is_empty: bool,
    pub display_name: String,
    pub publisher: String,
    pub install_location: String,
    pub uninstall_string: String,
}

/// Whether a path is the root of all software or one of the system's own keys.
pub open spec fn is_protected_key(path: Seq<char>) -> bool {
    let plain = text::lowercase(text::trimmed(path, CharSet::Whitespace));
    ||| plain == "software"@
    ||| plain == "software\\microsoft"@
    ||| text::has_prefix(plain, "software\\microsoft\\windows"@)
}

/// Whether a path is the root of all software or one of the system's own keys.
pub fn is_blacklisted_registry_path(path: &str) -> (r: bool)
    ensures
        r == is_protected_key(path@),
{
    let blank = text::trim(path, CharSet::Whitespace);
    let plain = text::to_lowercase(blank.as_str());
    text::same(plain.as_str(), "software") || text::same(plain.as_str(), "software\\microsoft")
        || text::starts_with(plain.as_str(), "software\\microsoft\\windows")
}

/// A key's path as it is judged: without surrounding blanks and backslashes, in
/// lower case.
pub open spec fn judged_path(path: Seq<char>) -> Seq<char> {
    text::lowercase(
        text::trimmed(text::trimmed(path, CharSet::Whitespace), CharSet::One('\\')),
    )
}

/// Whether a value that a key holds speaks of one of the keywords.
pub open spec fn value_speaks(value: Seq<char>, keywords: Seq<String>) -> bool {
    match_text(value).len() > 0 && speaks_of_one(match_text(value), keywords)
}

/// Whether a key's path or one of its values speaks of one of the keywords.
pub open spec fn key_speaks(key: KeyFacts, path: Seq<char>, keywords: Seq<String>) -> bool {
    ||| speaks_of_one(path, keywords)
    ||| value_speaks(key.display_name@, keywords)
    ||| value_speaks(key.publisher@, keywords)
    ||| value_speaks(key.install_location@, keywords)
    ||| value_speaks(key.uninstall_string@, keywords)
}

fn value_matches(value: &str, keywords: &Vec<String>) -> (r: bool)
    ensures
        r == value_speaks(value@, keywords@),
{
    let plain = normalize_match_text(value);
    !plain.as_str().is_empty() && matches_keywords(plain.as_str(), keywords)
}

/// Whether a key's path or one of its values speaks of one of the keywords.
pub fn registry_key_belongs_to_app(key: &KeyFacts, path: &str, keywords: &Vec<String>) -> (r: bool)
    ensures
        r == key_speaks(*key, path@, keywords@),
{
    matches_keywords(path, keywords) || value_matches(key.display_name.as_str(), keywords)
        || value_matches(key.publisher.as_str(), keywords) || value_matches(
        key.install_location.as_str(),
        keywords,
    ) || value_matches(key.uninstall_string.as_str(), keywords)
}

/// Whether a key may be deleted: it lies at least two levels below the root of
/// all software, is none of the system's own, can be opened, and is empty or
/// speaks of the application.
pub open spec fn may_delete_key(path: Seq<char>, key: KeyFacts, keywords: Seq<String>) -> bool {
    let judged = judged_path(path);
    &&& judged.len() > 0
    &&& judged != "software"@
    &&& !is_protected_key(judged)
    &&& text::has_prefix(judged, "software\\"@)
    &&& text::pieces(judged, CharSet::One('\\')).len() >= 3
    &&& key.opens
    &&& key.is_empty || (keywords.len() > 0 && key_speaks(key, judged, keywords))
}

/// Whether a key may be deleted.
pub fn is_safe_registry_cleanup_target(path: &str, key: &KeyFacts, keywords: &Vec<String>) -> (r:
    bool)
    ensures
        r == may_delete_key(path@, *key, keywords@),
{
    let blank = text::trim(path, CharSet::Whitespace);
    let bare = text::trim(blank.as_str(), CharSet::One('\\'));
    let judged = text::to_lowercase(bare.as_str());
    if judged.as_str().is_empty() || text::same(judged.as_str(), "software") {
        return false;
    }
    if is_blacklisted_registry_path(judged.as_str()) {
        return false;
    }
    if !text::starts_with(judged.as_str(), "software\\") {
        return false;
    }
    let parts = text::split(judged.as_str(), CharSet::One('\\'));
    assert(text::texts(parts@).len() == parts@.len());
    if parts.len() < 3 {
        return false;
    }
    if !key.opens {
        return false;
    }
    if key.is_empty {
        return true;
    }
    if keywords.len() == 0 {
        return false;
    }
    registry_key_belongs_to_app(key, judged.as_str(), keywords)
}

/// A key of the system is never deleted, and neither is the root of all
/// software or the key of a vendor right below it, whatever the key holds and
/// whatever the keywords are.
pub proof fn law_system_keys_are_kept(path: Seq<char>, key: KeyFacts, keywords: Seq<String>)
    ensures
        may_delete_key(path, key, keywords) ==> !is_protected_key(judged_path(path))
            && text::has_prefix(judged_path(path), "software\\"@) && text::pieces(
            judged_path(path),
            CharSet::One('\\'),
        ).len() >= 3,
{
}

/// A key that holds something is deleted only where its path or one of its
/// values speaks of a keyword; so without keywords only empty keys are.
pub proof fn law_foreign_keys_are_kept(path: Seq<char>, key: KeyFacts, keywords: Seq<String>)
    ensures
        may_delete_key(path, key, keywords) && !key.is_empty ==> key_speaks(
            key,
            judged_path(path),
            keywords,
        ),
        may_delete_key(path, key, seq![]) ==> key.is_empty,
{
}

/// A key under which keys of one kind lie: the short name of its hive and its
/// path.
#[derive(Debug)]
pub struct RegistryRoot {
    pub hive: Hive,
    pub hive_name: &'static str,
    pub path: &'static str,
}

pub open spec fn hive_name(hive: Hive) -> &'static str {
    match hive {
        Hive::LocalMachine => "HKLM",
        Hive::CurrentUser => "HKCU",
    }
}

pub open spec fn root_of(hive: Hive, path: &'static str) -> RegistryRoot {
    RegistryRoot { hive, hive_name: hive_name(hive), path }
}

fn root(hive: Hive, path: &'static str) -> (r: RegistryRoot)
    ensures
        r == root_of(hive, path),
{
    let hive_name = match hive {
        Hive::LocalMachine => "HKLM",
        Hive::CurrentUser => "HKCU",
    };
    RegistryRoot { hive, hive_name, path }
}

pub open spec fn uninstall_root_table() -> Seq<RegistryRoot> {
    seq![
        root_of(Hive::LocalMachine, "SOFTWARE\\Microsoft\\Windows\\CurrentVersion\\Uninstall"),
        root_of(
            Hive::LocalMachine,
            "SOFTWARE\\WOW6432Node\\Microsoft\\Windows\\CurrentVersion\\Uninstall",
        ),
        root_of(Hive::CurrentUser, "SOFTWARE\\Microsoft\\Windows\\CurrentVersion\\Uninstall"),
    ]
}

/// Where the entries of installed applications lie.
pub fn uninstall_roots() -> (r: Vec<RegistryRoot>)
    ensures
        r@ == uninstall_root_table(),
{
    let r = vec![
        root(Hive::LocalMachine, "SOFTWARE\\Microsoft\\Windows\\CurrentVersion\\Uninstall"),
        root(
            Hive::LocalMachine,
            "SOFTWARE\\WOW6432Node\\Microsoft\\Windows\\CurrentVersion\\Uninstall",
        ),
        root(Hive::CurrentUser, "SOFTWARE\\Microsoft\\Windows\\CurrentVersion\\Uninstall"),
    ];
    assert(r@ =~= uninstall_root_table());
    r
}

/// Where uninstall commands are searched: the roots of all entries, and the
/// user's 32-bit ones.
pub fn command_roots() -> (r: Vec<RegistryRoot>)
    ensures
        r@ == uninstall_root_table().push(
            root_of(
                Hive::CurrentUser,
                "SOFTWARE\\WOW6432Node\\Microsoft\\Windows\\CurrentVersion\\Uninstall",
            ),
        ),
{
    let mut r = uninstall_roots();
    r.push(
        root(
            Hive::CurrentUser,
            "SOFTWARE\\WOW6432Node\\Microsoft\\Windows\\CurrentVersion\\Uninstall",
        ),
    );
    r
}

pub open spec fn publisher_root_table() -> Seq<RegistryRoot> {
    seq![
        root_of(Hive::LocalMachine, "SOFTWARE"),
        root_of(Hive::LocalMachine, "SOFTWARE\\WOW6432Node"),
        root_of(Hive::CurrentUser, "SOFTWARE"),
        root_of(Hive::CurrentUser, "SOFTWARE\\WOW6432Node"),
    ]
}

/// Where the keys of publishers lie.
pub fn publisher_roots() -> (r: Vec<RegistryRoot>)
    ensures
        r@ == publisher_root_table(),
{
    let r = vec![
        root(Hive::LocalMachine, "SOFTWARE"),
        root(Hive::LocalMachine, "SOFTWARE\\WOW6432Node"),
        root(Hive::CurrentUser, "SOFTWARE"),
        root(Hive::CurrentUser, "SOFTWARE\\WOW6432Node"),
    ];
    assert(r@ =~= publisher_root_table());
    r
}

pub open spec fn class_root_table() -> Seq<RegistryRoot> {
    seq![
        root_of(Hive::LocalMachine, "SOFTWARE\\Classes\\Applications"),
        root_of(Hive::CurrentUser, "SOFTWARE\\Classes\\Applications"),
    ]
}

/// Where the file associations of applications lie.
pub fn class_roots() -> (r: Vec<RegistryRoot>)
    ensures
        r@ == class_root_table(),
{
    let r = vec![
        root(Hive::LocalMachine, "SOFTWARE\\Classes\\Applications"),
        root(Hive::CurrentUser, "SOFTWARE\\Classes\\Applications"),
    ];
    assert(r@ =~= class_root_table());
    r
}

/// The path of a key below another.
pub open spec fn below(path: Seq<char>, name: Seq<char>) -> Seq<char> {
    path + "\\"@ + name
}

/// The path of a key below another.
pub fn path_below(path: &str, name: &str) -> (r: String)
    ensures
        r@ == below(path@, name@),
{
    let mut r = path.to_owned();
    r.push_str("\\");
    r.push_str(name);
    r
}

} // verus!
