//! What an application leaves behind: files, directories and registry keys.

#![verifier::loop_isolation(false)]

use vstd::prelude::*;

use super::keywords::{match_text, normalize_match_text, normalize_windows_path, windows_path};
use super::uninstall_search::{collect_uninstall_path_hints, is_hint, UninstallEntry};
use crate::list::{holds_text, Ranked};
use crate::path;
use crate::text;
use crate::text::CharSet;

verus! {

/// Something that an application left behind.
#[derive(Debug)]
pub struct LeftoverItem {
    pub path: String,
    /// `Folder`, `File` or `Registry`.
    pub item_type: String,
    /// The size in hundredths of a megabyte, rounded.
    pub size_hundredths: u64,
    pub selected: bool,
}

impl Ranked for LeftoverItem {
    open spec fn before(self, other: Self) -> bool {
        self.size_hundredths > other.size_hundredths
    }

    proof fn lemma_ranks_transitive(a: Self, b: Self, c: Self) {
    }

    proof fn lemma_ranks_asymmetric(a: Self, b: Self) {
    }

    fn precedes(&self, other: &Self) -> (r: bool) {
        self.size_hundredths > other.size_hundredths
    }
}

/// Parts of paths that are never touched.
pub open spec fn protected_parts() -> Seq<&'static str> {
    seq!["microsoft", "windows", "common files", "tauri", "webview2"]
}

pub open spec fn protected_paths() -> Seq<&'static str> {
    seq![
        "c:\\windows",
        "c:\\windows\\system32",
        "c:\\program files",
        "c:\\program files (x86)",
    ]
}

/// Whether a path speaks of the system. The path is in lower case.
pub open spec fn is_protected_text(lower: Seq<char>) -> bool {
    text::contains_one(protected_parts(), lower)
}

/// Whether a path is not to be touched: it is one of the system's, speaks of
/// it, or is the root of a drive.
pub open spec fn is_protected_path(path: Seq<char>) -> bool {
    let lower = text::lowercase(path);
    ||| text::among(protected_paths(), lower)
    ||| text::has_prefix(lower, "c:\\windows\\"@)
    ||| text::has_prefix(lower, "c:\\windows\\system32\\"@)
    ||| is_protected_text(lower)
    ||| path::parent(path) is None
}

fn speaks_of_system(lower: &str) -> (r: bool)
    ensures
        r == is_protected_text(lower@),
{
    let parts = vec!["microsoft", "windows", "common files", "tauri", "webview2"];
    assert(parts@ =~= protected_parts());
    text::contains_any(&parts, lower)
}

/// Whether a path is not to be touched.
pub fn is_blacklisted_path(path: &str) -> (r: bool)
    ensures
        r == is_protected_path(path@),
{
    let paths = vec![
        "c:\\windows",
        "c:\\windows\\system32",
        "c:\\program files",
        "c:\\program files (x86)",
    ];
    assert(paths@ =~= protected_paths());
    let lower = text::to_lowercase(path);
    let has_parent = path::parent_of(path).is_some();
    text::is_among(&paths, lower.as_str()) || text::starts_with(lower.as_str(), "c:\\windows\\")
        || text::starts_with(lower.as_str(), "c:\\windows\\system32\\") || speaks_of_system(
        lower.as_str(),
    ) || !has_parent
}

/// By what the remains of an application are recognised.
#[derive(Debug)]
pub struct StrictScanContext {
    pub app_name_exact: String,
    pub app_folder_name: String,
    pub publisher_name: Option<String>,
    pub install_location: Option<String>,
    pub uninstall_path_hints: Vec<String>,
}

/// The value unless it is empty.
pub open spec fn nonempty(s: Option<Seq<char>>) -> Option<Seq<char>> {
    match s {
        Some(s) => if s.len() == 0 {
            None
        } else {
            Some(s)
        },
        None => None,
    }
}

pub open spec fn normalized_location(location: Option<Seq<char>>) -> Option<Seq<char>> {
    match location {
        Some(location) => nonempty(Some(windows_path(location))),
        None => None,
    }
}

fn unless_empty(s: String) -> (r: Option<String>)
    ensures
        text::view_of(r) == nonempty(Some(s@)),
{
    if s.as_str().is_empty() {
        None
    } else {
        Some(s)
    }
}

fn normalize_location(location: &Option<String>) -> (r: Option<String>)
    ensures
        text::view_of(r) == normalized_location(text::view_of(*location)),
{
    match location {
        Some(location) => unless_empty(normalize_windows_path(location.as_str())),
        None => None,
    }
}

/// The name by which a publisher is recognised.
pub open spec fn publisher_match(publisher: Option<Seq<char>>) -> Option<Seq<char>> {
    match publisher {
        Some(publisher) => nonempty(Some(match_text(publisher))),
        None => None,
    }
}

/// The last name of a path as it is compared.
pub open spec fn last_component(place: Seq<char>) -> Option<Seq<char>> {
    match path::last_name(windows_path(place)) {
        Some(name) => nonempty(Some(match_text(name))),
        None => None,
    }
}

/// The last name of a path as it is compared.
pub fn extract_last_path_component(place: &str) -> (r: Option<String>)
    ensures
        text::view_of(r) == last_component(place@),
{
    match path::last_name_of(normalize_windows_path(place).as_str()) {
        Some(name) => unless_empty(normalize_match_text(name.as_str())),
        None => None,
    }
}

/// The longest of the texts by the number of their bytes, of several the last.
pub open spec fn last_longest(parts: Seq<Seq<char>>) -> Option<Seq<char>>
    decreases parts.len(),
{
    if parts.len() == 0 {
        None
    } else {
        match last_longest(parts.drop_last()) {
            Some(best) => if text::byte_len(parts.last()) >= text::byte_len(best) {
                Some(parts.last())
            } else {
                Some(best)
            },
            None => Some(parts.last()),
        }
    }
}

/// The parts of a name between the characters that no file name holds.
pub open spec fn name_parts(name: Seq<char>) -> Seq<Seq<char>> {
    text::pieces(name, CharSet::Forbidden).map_values(
        |part: Seq<char>| text::trimmed(part, CharSet::Whitespace),
    )
}

/// The part of a name that can be a folder's name: the longest.
pub open spec fn folder_in_name(name: Seq<char>) -> Option<Seq<char>> {
    last_longest(text::filled(name_parts(name)))
}

fn longest_name_part(name: &str) -> (r: Option<String>)
    ensures
        text::view_of(r) == folder_in_name(name@),
{
    let parts = text::split(name, CharSet::Forbidden);
    let ghost all = name_parts(name@);
    let mut best: Option<String> = None;
    let mut i: usize = 0;
    assert(all.take(0) =~= seq![]);
    while i < parts.len()
        invariant
            i <= parts@.len(),
            text::view_of(best) == last_longest(text::filled(all.take(i as int))),
        decreases parts@.len() - i,
    {
        assert(text::texts(parts@)[i as int] == parts@[i as int]@);
        assert(all.take(i + 1).drop_last() =~= all.take(i as int));
        let part = text::trim(parts[i].as_str(), CharSet::Whitespace);
        assert(all[i as int] == part@);
        if !part.as_str().is_empty() {
            assert(text::filled(all.take(i + 1)).drop_last() =~= text::filled(all.take(i as int)));
            let better = match &best {
                Some(best) => text::byte_length(part.as_str()) >= text::byte_length(best.as_str()),
                None => true,
            };
            if better {
                best = Some(part);
            }
        }
        i = i + 1;
    }
    assert(all.take(i as int) =~= all);
    best
}

/// The name of an application's folder: that of its place, else the longest
/// part of its name.
pub open spec fn folder_name(name: Seq<char>, location: Option<Seq<char>>) -> Option<Seq<char>> {
    let own = match normalized_location(location) {
        Some(location) => last_component(location),
        None => None,
    };
    match own {
        Some(folder) => Some(folder),
        None => folder_in_name(match_text(name)),
    }
}

/// Whether a context says by what the remains of an application are recognised.
pub open spec fn is_context(
    context: StrictScanContext,
    name: Seq<char>,
    publisher: Option<Seq<char>>,
    location: Option<Seq<char>>,
    entries: Seq<UninstallEntry>,
    present: Seq<String>,
) -> bool {
    &&& context.app_name_exact@ == match_text(name)
    &&& folder_name(name, location) == Some(context.app_folder_name@)
    &&& text::view_of(context.publisher_name) == publisher_match(publisher)
    &&& text::view_of(context.install_location) == normalized_location(location)
    &&& forall|hint: Seq<char>| #[trigger]
        holds_text(context.uninstall_path_hints@, hint) <==> is_hint(
            hint,
            match_text(name),
            normalized_location(location),
            entries,
            present,
        )
}

/// By what the remains of an application are recognised; absent where its name
/// gives nothing to go by. `present` holds the paths that exist, of those that
/// the entries' commands may name.
pub fn build_strict_scan_context(
    app_name: &str,
    publisher: &Option<String>,
    install_location: &Option<String>,
    entries: &Vec<UninstallEntry>,
    present: &Vec<String>,
) -> (r: Option<StrictScanContext>)
    ensures
        match r {
            Some(context) => match_text(app_name@).len() > 0 && is_context(
                context,
                app_name@,
                text::view_of(*publisher),
                text::view_of(*install_location),
                entries@,
                present@,
            ),
            None => match_text(app_name@).len() == 0 || folder_name(
                app_name@,
                text::view_of(*install_location),
            ) is None,
        },
{
    let app_name_exact = normalize_match_text(app_name);
    if app_name_exact.as_str().is_empty() {
        return None;
    }
    let install_location = normalize_location(install_location);
    let own_folder = match &install_location {
        Some(location) => extract_last_path_component(location.as_str()),
        None => None,
    };
    let app_folder_name = match own_folder {
        Some(folder) => folder,
        None => match longest_name_part(app_name_exact.as_str()) {
            Some(part) => part,
            None => {
                return None;
            },
        },
    };
    let publisher_name = match publisher {
        Some(publisher) => unless_empty(normalize_match_text(publisher.as_str())),
        None => None,
    };
    let uninstall_path_hints = collect_uninstall_path_hints(
        app_name_exact.as_str(),
        &install_location,
        entries,
        present,
    );
    Some(
        StrictScanContext {
            app_name_exact,
            app_folder_name,
            publisher_name,
            install_location,
            uninstall_path_hints,
        },
    )
}

/// A path that was found.
#[derive(Debug)]
pub struct FoundPath {
    pub path: String,
    pub is_dir: bool,
    /// Its size in hundredths of a megabyte, rounded; of a directory that of
    /// all files in it.
    pub size_hundredths: u64,
}

/// The components of a path as they are compared, without those that are empty.
pub open spec fn compared_components(path: Seq<char>) -> Seq<Seq<char>> {
    text::filled(path::written_components(path).map_values(|c: Seq<char>| match_text(c)))
}

/// Whether a component is the publisher's by its name.
pub open spec fn is_publisher_component(component: Seq<char>, publisher: Seq<char>) -> bool {
    text::contains_text(component, publisher) || text::contains_text(publisher, component)
}

/// The position of the publisher's component, if there is one.
pub open spec fn publisher_position(components: Seq<Seq<char>>, publisher: Seq<char>, i: int) -> int
    decreases components.len() - i,
{
    if i >= components.len() || i < 0 || is_publisher_component(components[i], publisher) {
        i
    } else {
        publisher_position(components, publisher, i + 1)
    }
}

/// Whether a component at or after a position is the application's folder.
pub open spec fn has_folder_from(components: Seq<Seq<char>>, folder: Seq<char>, from: int) -> bool {
    exists|i: int| from <= i < components.len() && 0 <= i && #[trigger] components[i] == folder
}

/// Whether a path is a remain of the application: it is its place, or one of
/// its components is the application's folder; where the path speaks of the
/// publisher, that component lies deeper than the publisher's.
pub open spec fn is_remain(path: Seq<char>, context: StrictScanContext) -> bool {
    let lower = text::lowercase(path);
    let parts = compared_components(path);
    let folder = context.app_folder_name@;
    if is_protected_text(lower) {
        false
    } else if context.install_location is Some && context.install_location->0@ == lower {
        true
    } else if !has_folder_from(parts, folder, 0) {
        false
    } else if context.publisher_name is Some && text::contains_text(
        lower,
        context.publisher_name->0@,
    ) {
        let at = publisher_position(parts, context.publisher_name->0@, 0);
        at < parts.len() && has_folder_from(parts, folder, at + 1)
    } else {
        true
    }
}

fn compare_components(path: &str) -> (r: Vec<String>)
    ensures
        text::texts(r@) == compared_components(path@),
{
    let components = path::written_components_of(path);
    let ghost all = text::texts(components@).map_values(|c: Seq<char>| match_text(c));
    let mut r: Vec<String> = Vec::new();
    let mut i: usize = 0;
    assert(all.take(0) =~= seq![]);
    assert(text::texts(r@) =~= seq![]);
    while i < components.len()
        invariant
            i <= components@.len(),
            text::texts(r@) == text::filled(all.take(i as int)),
        decreases components@.len() - i,
    {
        assert(all.take(i + 1).drop_last() =~= all.take(i as int));
        let plain = normalize_match_text(components[i].as_str());
        assert(all[i as int] == plain@);
        if !plain.as_str().is_empty() {
            proof {
                text::lemma_texts_push(r@, plain);
            }
            r.push(plain);
        }
        i = i + 1;
    }
    assert(all.take(i as int) =~= all);
    r
}

fn has_folder_after(parts: &Vec<String>, folder: &str, from: usize) -> (r: bool)
    ensures
        r == has_folder_from(text::texts(parts@), folder@, from as int),
{
    let mut i: usize = from;
    while i < parts.len()
        invariant
            from <= i,
            forall|j: int| from <= j < i && j < parts@.len() ==> #[trigger] text::texts(parts@)[j] != folder@,
        decreases parts@.len() - i,
    {
        assert(text::texts(parts@)[i as int] == parts@[i as int]@);
        if text::same(parts[i].as_str(), folder) {
            return true;
        }
        i = i + 1;
    }
    false
}

fn find_publisher(parts: &Vec<String>, publisher: &str) -> (r: usize)
    ensures
        r == publisher_position(text::texts(parts@), publisher@, 0),
        r <= parts@.len(),
{
    let mut i: usize = 0;
    while i < parts.len()
        invariant
            i <= parts@.len(),
            publisher_position(text::texts(parts@), publisher@, 0) == publisher_position(
                text::texts(parts@),
                publisher@,
                i as int,
            ),
        decreases parts@.len() - i,
    {
        assert(text::texts(parts@)[i as int] == parts@[i as int]@);
        if text::contains(parts[i].as_str(), publisher) || text::contains(
            publisher,
            parts[i].as_str(),
        ) {
            return i;
        }
        i = i + 1;
    }
    i
}

/// Whether a path is a remain of the application.
pub fn matches_strict_leftover_path(
    path: &str,
    context: &StrictScanContext,
) -> (r: bool)
    ensures
        r == is_remain(path@, *context),
{
    let lower = text::to_lowercase(path);
    if speaks_of_system(lower.as_str()) {
        return false;
    }
    if let Some(location) = &context.install_location {
        if text::same(lower.as_str(), location.as_str()) {
            return true;
        }
    }
    let parts = compare_components(path);
    assert(text::texts(parts@).len() == parts@.len());
    if !has_folder_after(&parts, context.app_folder_name.as_str(), 0) {
        return false;
    }
    if let Some(publisher) = &context.publisher_name {
        if text::contains(lower.as_str(), publisher.as_str()) {
            let at = find_publisher(&parts, publisher.as_str());
            return at < parts.len() && has_folder_after(
                &parts,
                context.app_folder_name.as_str(),
                at + 1,
            );
        }
    }
    true
}

/// Nothing that speaks of the system is a remain of an application, whatever
/// the application is called and wherever it lies.
pub proof fn law_system_files_are_no_remains(
    path: Seq<char>,
    context: StrictScanContext,
)
    ensures
        is_protected_text(text::lowercase(path)) ==> !is_remain(path, context),
{
}

/// A path without a component that is the application's folder is a remain only
/// if it is the application's place.
pub proof fn law_remains_bear_the_folder_name(
    path: Seq<char>,
    context: StrictScanContext,
)
    ensures
        is_remain(path, context) ==> has_folder_from(
            compared_components(path),
            context.app_folder_name@,
            0,
        ) || (context.install_location is Some && context.install_location->0@ == text::lowercase(
            path,
        )),
{
}

/// Whether a value holds one of the hints.
pub open spec fn holds_hint(value: Seq<char>, hints: Seq<String>) -> bool {
    exists|i: int|
        0 <= i < hints.len() && (#[trigger] hints[i])@.len() > 0 && text::contains_text(
            value,
            hints[i]@,
        )
}

/// Whether an entry is that of the application: it bears its name, or one of
/// its commands leads to the application's place.
pub open spec fn is_entry_of(entry: UninstallEntry, context: StrictScanContext) -> bool {
    ||| match_text(entry.display_name@).len() > 0 && match_text(entry.display_name@)
        == context.app_name_exact@
    ||| windows_path(entry.uninstall_string@).len() > 0 && holds_hint(
        windows_path(entry.uninstall_string@),
        context.uninstall_path_hints@,
    )
    ||| windows_path(entry.quiet_uninstall_string@).len() > 0 && holds_hint(
        windows_path(entry.quiet_uninstall_string@),
        context.uninstall_path_hints@,
    )
}

fn command_holds_hint(command: &str, hints: &Vec<String>) -> (r: bool)
    ensures
        r == (windows_path(command@).len() > 0 && holds_hint(windows_path(command@), hints@)),
{
    let value = normalize_windows_path(command);
    if value.as_str().is_empty() {
        return false;
    }
    let mut i: usize = 0;
    while i < hints.len()
        invariant
            i <= hints@.len(),
            forall|j: int|
                0 <= j < i ==> !((#[trigger] hints@[j])@.len() > 0 && text::contains_text(
                    value@,
                    hints@[j]@,
                )),
        decreases hints@.len() - i,
    {
        if !hints[i].as_str().is_empty() && text::contains(value.as_str(), hints[i].as_str()) {
            return true;
        }
        i = i + 1;
    }
    false
}

/// Whether an entry is that of the application.
pub fn matches_registry_key_strict(entry: &UninstallEntry, context: &StrictScanContext) -> (r: bool)
    ensures
        r == is_entry_of(*entry, *context),
{
    let name = normalize_match_text(entry.display_name.as_str());
    if !name.as_str().is_empty() && text::same(name.as_str(), context.app_name_exact.as_str()) {
        return true;
    }
    command_holds_hint(entry.uninstall_string.as_str(), &context.uninstall_path_hints)
        || command_holds_hint(
        entry.quiet_uninstall_string.as_str(),
        &context.uninstall_path_hints,
    )
}

} // verus!
