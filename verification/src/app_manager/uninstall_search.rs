//! Searching the entries of installed applications for uninstall commands and
//! install locations.

#![verifier::loop_isolation(false)]

use vstd::prelude::*;

use super::command_line::{
    extract_uninstall_path_hint, is_valid_uninstall_command, names_nothing, path_hint,
};
use super::keywords::{
    match_text, normalize_match_text, normalize_windows_path, sanitize_search_text, sanitized,
    windows_path,
};
use super::locate::{is_shared_directory, shared_parts};
use super::registry::Hive;
use crate::list;
use crate::list::holds_text;
use crate::path;
use crate::text;
use crate::text::CharSet;

verus! {

/// An application's entry in the registry; the values that it lacks are empty.
#[derive(Debug)]
pub struct UninstallEntry {
    pub hive: Hive,
    /// The path of the entry's key below its hive.
    pub path: String,
    pub display_name: String,
    pub install_location: String,
    pub uninstall_string: String,
    pub quiet_uninstall_string: String,
}

/// The commands of an entry: the silent one first, then the usual one unless it
/// is the same but for the case of ASCII letters. Blank ones are left out.
pub open spec fn commands_in(quiet: Seq<char>, usual: Seq<char>) -> Seq<Seq<char>> {
    let first = if names_nothing(quiet) {
        seq![]
    } else {
        seq![text::trimmed(quiet, CharSet::Whitespace)]
    };
    let second = text::trimmed(usual, CharSet::Whitespace);
    if names_nothing(usual) || (first.len() > 0 && text::ascii_lowercase(first[0])
        == text::ascii_lowercase(second)) {
        first
    } else {
        first.push(second)
    }
}

pub open spec fn commands_of(entry: UninstallEntry) -> Seq<Seq<char>> {
    commands_in(entry.quiet_uninstall_string@, entry.uninstall_string@)
}

/// The commands that an entry holds.
pub fn entry_commands(quiet: &str, usual: &str) -> (r: Vec<String>)
    ensures
        text::texts(r@) == commands_in(quiet@, usual@),
{
    let mut commands: Vec<String> = Vec::new();
    if is_valid_uninstall_command(quiet) {
        commands.push(text::trim(quiet, CharSet::Whitespace));
    }
    let ghost first = text::texts(commands@);
    assert(first =~= if names_nothing(quiet@) {
        seq![]
    } else {
        seq![text::trimmed(quiet@, CharSet::Whitespace)]
    });
    if is_valid_uninstall_command(usual) {
        let second = text::trim(usual, CharSet::Whitespace);
        if commands.len() == 0 || !text::same_ignoring_ascii_case(
            commands[0].as_str(),
            second.as_str(),
        ) {
            proof {
                text::lemma_texts_push(commands@, second);
            }
            commands.push(second);
        }
    }
    commands
}

/// The commands of the first entry that fits and has any.
pub open spec fn first_commands(
    entries: Seq<UninstallEntry>,
    fits: spec_fn(UninstallEntry) -> bool,
) -> Seq<Seq<char>>
    decreases entries.len(),
{
    if entries.len() == 0 {
        seq![]
    } else if fits(entries[0]) && commands_of(entries[0]).len() > 0 {
        commands_of(entries[0])
    } else {
        first_commands(entries.drop_first(), fits)
    }
}

/// A name as it is compared: without surrounding blanks, in lower case.
pub open spec fn plain_name(s: Seq<char>) -> Seq<char> {
    text::lowercase(text::trimmed(s, CharSet::Whitespace))
}

/// A place as it is compared: like a name, and without trailing backslashes.
pub open spec fn plain_place(s: Seq<char>) -> Seq<char> {
    text::trimmed_end(plain_name(s), CharSet::One('\\'))
}

pub open spec fn has_name(name: Seq<char>) -> spec_fn(UninstallEntry) -> bool {
    |entry: UninstallEntry| plain_name(entry.display_name@) == name
}

pub open spec fn has_place(place: Seq<char>) -> spec_fn(UninstallEntry) -> bool {
    |entry: UninstallEntry| plain_place(entry.install_location@) == place
}

fn plain_name_text(s: &str) -> (r: String)
    ensures
        r@ == plain_name(s@),
{
    let blank = text::trim(s, CharSet::Whitespace);
    text::to_lowercase(blank.as_str())
}

fn plain_place_text(s: &str) -> (r: String)
    ensures
        r@ == plain_place(s@),
{
    let plain = plain_name_text(s);
    text::trim_end(plain.as_str(), CharSet::One('\\'))
}

/// The uninstall commands of an application by its name.
pub open spec fn commands_by_name(app_id: Seq<char>, entries: Seq<UninstallEntry>) -> Seq<
    Seq<char>,
> {
    if plain_name(app_id).len() == 0 {
        seq![]
    } else {
        first_commands(entries, has_name(plain_name(app_id)))
    }
}

/// The uninstall commands of an application by its place.
pub open spec fn commands_by_place(place: Seq<char>, entries: Seq<UninstallEntry>) -> Seq<
    Seq<char>,
> {
    if plain_name(place).len() == 0 {
        seq![]
    } else {
        first_commands(entries, has_place(plain_place(place)))
    }
}

/// The uninstall commands of the first entry that bears the name and has any.
pub fn find_uninstall_commands_by_display_name(
    app_id: &str,
    entries: &Vec<UninstallEntry>,
) -> (r: Vec<String>)
    ensures
        text::texts(r@) == commands_by_name(app_id@, entries@),
{
    let query = plain_name_text(app_id);
    let none: Vec<String> = Vec::new();
    assert(text::texts(none@) =~= seq![]);
    if query.as_str().is_empty() {
        return none;
    }
    let ghost fits = has_name(query@);
    let mut i: usize = 0;
    assert(entries@.skip(0) =~= entries@);
    while i < entries.len()
        invariant
            i <= entries@.len(),
            first_commands(entries@, fits) == first_commands(entries@.skip(i as int), fits),
        decreases entries@.len() - i,
    {
        assert(entries@.skip(i as int).drop_first() =~= entries@.skip(i + 1));
        let entry = &entries[i];
        let name = plain_name_text(entry.display_name.as_str());
        if text::same(name.as_str(), query.as_str()) {
            let commands = entry_commands(
                entry.quiet_uninstall_string.as_str(),
                entry.uninstall_string.as_str(),
            );
            assert(text::texts(commands@).len() == commands@.len());
            if commands.len() > 0 {
                return commands;
            }
        }
        i = i + 1;
    }
    none
}

/// The first of an application's uninstall commands, found by its name.
pub fn find_uninstall_by_display_name(app_id: &str, entries: &Vec<UninstallEntry>) -> (r: Option<
    String,
>)
    ensures
        match r {
            Some(command) => commands_by_name(app_id@, entries@).len() > 0 && command@
                == commands_by_name(app_id@, entries@)[0],
            None => commands_by_name(app_id@, entries@).len() == 0,
        },
{
    let mut commands = find_uninstall_commands_by_display_name(app_id, entries);
    assert(text::texts(commands@).len() == commands@.len());
    if commands.len() == 0 {
        return None;
    }
    assert(text::texts(commands@)[0] == commands@[0]@);
    Some(commands.remove(0))
}

/// The uninstall commands of the first entry that has the place and commands.
pub fn find_uninstall_commands_by_install_location(
    install_location: &str,
    entries: &Vec<UninstallEntry>,
) -> (r: Vec<String>)
    ensures
        text::texts(r@) == commands_by_place(install_location@, entries@),
{
    let target = plain_name_text(install_location);
    let none: Vec<String> = Vec::new();
    assert(text::texts(none@) =~= seq![]);
    if target.as_str().is_empty() {
        return none;
    }
    let place = text::trim_end(target.as_str(), CharSet::One('\\'));
    let ghost fits = has_place(place@);
    let mut i: usize = 0;
    assert(entries@.skip(0) =~= entries@);
    while i < entries.len()
        invariant
            i <= entries@.len(),
            first_commands(entries@, fits) == first_commands(entries@.skip(i as int), fits),
        decreases entries@.len() - i,
    {
        assert(entries@.skip(i as int).drop_first() =~= entries@.skip(i + 1));
        let entry = &entries[i];
        let there = plain_place_text(entry.install_location.as_str());
        if text::same(there.as_str(), place.as_str()) {
            let commands = entry_commands(
                entry.quiet_uninstall_string.as_str(),
                entry.uninstall_string.as_str(),
            );
            assert(text::texts(commands@).len() == commands@.len());
            if commands.len() > 0 {
                return commands;
            }
        }
        i = i + 1;
    }
    none
}

/// Every command that a search finds belongs to an entry that fits.
pub proof fn law_found_commands_belong_to_the_application(
    entries: Seq<UninstallEntry>,
    fits: spec_fn(UninstallEntry) -> bool,
)
    ensures
        first_commands(entries, fits).len() > 0 ==> exists|i: int|
            0 <= i < entries.len() && fits(#[trigger] entries[i]) && first_commands(entries, fits)
                == commands_of(entries[i]),
    decreases entries.len(),
{
    if entries.len() > 0 && !(fits(entries[0]) && commands_of(entries[0]).len() > 0) {
        law_found_commands_belong_to_the_application(entries.drop_first(), fits);
        if first_commands(entries, fits).len() > 0 {
            let rest = entries.drop_first();
            let i = choose|i: int|
                0 <= i < rest.len() && fits(#[trigger] rest[i]) && first_commands(rest, fits)
                    == commands_of(rest[i]);
            assert(entries[i + 1] == rest[i]);
        }
    }
}

pub open spec fn uninstaller_marks() -> Seq<&'static str> {
    seq!["unin", "uninstall", "卸载"]
}

/// Whether a file is an uninstaller by its name.
pub open spec fn is_uninstaller(file: Seq<char>) -> bool {
    &&& path::last_extension(file) == Some("exe"@)
    &&& text::contains_one(uninstaller_marks(), text::lowercase(path::last_stem(file)))
}

fn looks_like_uninstaller(file: &str) -> (r: bool)
    ensures
        r == is_uninstaller(file@),
{
    let marks = vec!["unin", "uninstall", "卸载"];
    assert(marks@ =~= uninstaller_marks());
    match path::last_extension_of(file) {
        Some(extension) => {
            let lower = text::to_lowercase(path::last_stem_of(file).as_str());
            text::same(extension.as_str(), "exe") && text::contains_any(&marks, lower.as_str())
        },
        None => false,
    }
}

/// The position of the first uninstaller among the files, or their number.
pub open spec fn uninstaller_position(files: Seq<String>, i: int) -> int
    decreases files.len() - i,
{
    if i >= files.len() || i < 0 || is_uninstaller(files[i]@) {
        i
    } else {
        uninstaller_position(files, i + 1)
    }
}

/// The uninstaller in the application's directory.
pub open spec fn uninstaller_in(files: Seq<String>) -> Option<Seq<char>> {
    let at = uninstaller_position(files, 0);
    if at < files.len() {
        Some(files[at]@)
    } else {
        None
    }
}

/// The first uninstaller among the files of a directory and, after them, those
/// of its subdirectories.
pub fn scan_uninstaller_in_directory(files: &Vec<String>) -> (r: Option<String>)
    ensures
        text::view_of(r) == uninstaller_in(files@),
{
    let mut i: usize = 0;
    while i < files.len()
        invariant
            i <= files@.len(),
            uninstaller_position(files@, 0) == uninstaller_position(files@, i as int),
        decreases files@.len() - i,
    {
        if looks_like_uninstaller(files[i].as_str()) {
            return Some(files[i].clone());
        }
        i = i + 1;
    }
    None
}

/// Whether a file is a program or a library by its name.
pub open spec fn is_program_file(file: Seq<char>) -> bool {
    match path::last_extension(file) {
        Some(extension) => text::lowercase(extension) == "exe"@ || text::lowercase(extension)
            == "dll"@,
        None => false,
    }
}

/// Whether a directory still holds programs, by the names of its files.
pub fn directory_contains_executables(files: &Vec<String>) -> (r: bool)
    ensures
        r == exists|i: int| 0 <= i < files@.len() && is_program_file((#[trigger] files@[i])@),
{
    let mut i: usize = 0;
    while i < files.len()
        invariant
            i <= files@.len(),
            forall|j: int| 0 <= j < i ==> !is_program_file((#[trigger] files@[j])@),
        decreases files@.len() - i,
    {
        if let Some(extension) = path::last_extension_of(files[i].as_str()) {
            let lower = text::to_lowercase(extension.as_str());
            if text::same(lower.as_str(), "exe") || text::same(lower.as_str(), "dll") {
                assert(is_program_file(files@[i as int]@));
                return true;
            }
        }
        i = i + 1;
    }
    false
}

/// The places of the entries that bear a name.
pub open spec fn places_by_name(name: Seq<char>, entries: Seq<UninstallEntry>) -> Seq<Seq<char>>
    decreases entries.len(),
{
    if entries.len() == 0 {
        seq![]
    } else {
        let before = places_by_name(name, entries.drop_last());
        let entry = entries.last();
        if match_text(entry.display_name@) == name && sanitized(entry.install_location@).len()
            > 0 {
            before.push(sanitized(entry.install_location@))
        } else {
            before
        }
    }
}

/// The places of the entries that bear the application's name.
pub fn find_install_locations_by_app_name(app_name: &str, entries: &Vec<UninstallEntry>) -> (r: Vec<
    String,
>)
    ensures
        text::texts(r@) == if match_text(app_name@).len() == 0 {
            seq![]
        } else {
            places_by_name(match_text(app_name@), entries@)
        },
{
    let query = normalize_match_text(app_name);
    let mut places: Vec<String> = Vec::new();
    assert(text::texts(places@) =~= seq![]);
    if query.as_str().is_empty() {
        return places;
    }
    let mut i: usize = 0;
    assert(entries@.take(0) =~= seq![]);
    while i < entries.len()
        invariant
            i <= entries@.len(),
            text::texts(places@) == places_by_name(query@, entries@.take(i as int)),
        decreases entries@.len() - i,
    {
        assert(entries@.take(i + 1).drop_last() =~= entries@.take(i as int));
        let entry = &entries[i];
        let name = normalize_match_text(entry.display_name.as_str());
        if text::same(name.as_str(), query.as_str()) {
            let place = sanitize_search_text(entry.install_location.as_str());
            if !place.as_str().is_empty() {
                proof {
                    text::lemma_texts_push(places@, place);
                }
                places.push(place);
            }
        }
        i = i + 1;
    }
    assert(entries@.take(i as int) =~= entries@);
    places
}

/// Whether the evidence of where an application lies holds a path: its own
/// place, or the program of a command of an entry that bears its name.
pub open spec fn is_hint(
    hint: Seq<char>,
    name: Seq<char>,
    place: Option<Seq<char>>,
    entries: Seq<UninstallEntry>,
    present: Seq<String>,
) -> bool {
    ||| place is Some && windows_path(place->0).len() > 0 && hint == windows_path(place->0)
    ||| exists|i: int|
        0 <= i < entries.len() && match_text((#[trigger] entries[i]).display_name@) == name && (
        path_hint(entries[i].uninstall_string@, present) == Some(hint) || path_hint(
            entries[i].quiet_uninstall_string@,
            present,
        ) == Some(hint))
}

fn add_hint(hints: &mut Vec<String>, hint: Option<String>)
    ensures
        final(hints)@ == match hint {
            Some(hint) => old(hints)@.push(hint),
            None => old(hints)@,
        },
{
    if let Some(hint) = hint {
        hints.push(hint);
    }
}

/// The evidence of where an application lies, each path once and in order.
/// `present` holds the paths that exist, of those that the commands may name.
pub fn collect_uninstall_path_hints(
    app_name_exact: &str,
    install_location: &Option<String>,
    entries: &Vec<UninstallEntry>,
    present: &Vec<String>,
) -> (r: Vec<String>)
    ensures
        forall|hint: Seq<char>| #[trigger]
            holds_text(r@, hint) <==> is_hint(
                hint,
                app_name_exact@,
                text::view_of(*install_location),
                entries@,
                present@,
            ),
        forall|i: int, j: int|
            0 <= i < j < r@.len() ==> text::text_before(
                (#[trigger] r@[i])@,
                (#[trigger] r@[j])@,
            ),
{
    let ghost name = app_name_exact@;
    let ghost place = text::view_of(*install_location);
    let mut hints: Vec<String> = Vec::new();
    if let Some(location) = install_location {
        let plain = normalize_windows_path(location.as_str());
        if !plain.as_str().is_empty() {
            proof {
                list::lemma_holds_text_push(hints@, plain);
            }
            hints.push(plain);
        }
    }
    let mut i: usize = 0;
    assert(entries@.take(0) =~= seq![]);
    assert forall|hint: Seq<char>| #[trigger] holds_text(hints@, hint) <==> is_hint(
        hint,
        name,
        place,
        entries@.take(0),
        present@,
    ) by {}
    while i < entries.len()
        invariant
            i <= entries@.len(),
            forall|hint: Seq<char>| #[trigger]
                holds_text(hints@, hint) <==> is_hint(
                    hint,
                    name,
                    place,
                    entries@.take(i as int),
                    present@,
                ),
        decreases entries@.len() - i,
    {
        let entry = &entries[i];
        let ghost before = hints@;
        let named = normalize_match_text(entry.display_name.as_str());
        if text::same(named.as_str(), app_name_exact) {
            let usual = extract_uninstall_path_hint(entry.uninstall_string.as_str(), present);
            let quiet = extract_uninstall_path_hint(entry.quiet_uninstall_string.as_str(), present);
            proof {
                if usual is Some {
                    list::lemma_holds_text_push(before, usual->0);
                }
            }
            add_hint(&mut hints, usual);
            let ghost middle = hints@;
            proof {
                if quiet is Some {
                    list::lemma_holds_text_push(middle, quiet->0);
                }
            }
            add_hint(&mut hints, quiet);
        }
        proof {
            let old_part = entries@.take(i as int);
            let new_part = entries@.take(i + 1);
            assert forall|hint: Seq<char>| #[trigger] holds_text(hints@, hint) <==> is_hint(
                hint,
                name,
                place,
                new_part,
                present@,
            ) by {
                assert(new_part[i as int] == *entry);
                assert forall|k: int| 0 <= k < i implies #[trigger] new_part[k]
                    == old_part[k] by {}
                if is_hint(hint, name, place, old_part, present@) && !(place is Some
                    && windows_path(place->0).len() > 0 && hint == windows_path(place->0)) {
                    let k = choose|k: int|
                        0 <= k < old_part.len() && match_text(
                            (#[trigger] old_part[k]).display_name@,
                        ) == name && (path_hint(old_part[k].uninstall_string@, present@)
                            == Some(hint) || path_hint(
                            old_part[k].quiet_uninstall_string@,
                            present@,
                        ) == Some(hint));
                    assert(new_part[k] == old_part[k]);
                }
                if is_hint(hint, name, place, new_part, present@) && !(place is Some
                    && windows_path(place->0).len() > 0 && hint == windows_path(place->0)) {
                    let k = choose|k: int|
                        0 <= k < new_part.len() && match_text(
                            (#[trigger] new_part[k]).display_name@,
                        ) == name && (path_hint(new_part[k].uninstall_string@, present@)
                            == Some(hint) || path_hint(
                            new_part[k].quiet_uninstall_string@,
                            present@,
                        ) == Some(hint));
                    if k < i {
                        assert(old_part[k] == new_part[k]);
                        assert(is_hint(hint, name, place, old_part, present@));
                    }
                }
            }
        }
        i = i + 1;
    }
    assert(entries@.take(i as int) =~= entries@);
    list::sorted_texts(hints)
}

/// What is found where an icon entry or an uninstall command leads: the
/// directory of the file, or the directory itself; absent where it leads
/// nowhere.
pub open spec fn usable_place(place: Option<Seq<char>>) -> Option<Seq<char>> {
    match place {
        Some(dir) => if text::contains_one(shared_parts(), text::lowercase(dir)) {
            None
        } else {
            Some(dir)
        },
        None => None,
    }
}

/// Where an application lies by its entry: its stated place, else where its
/// icon lies, else where its uninstaller does.
pub open spec fn place_of_entry(
    stated: Seq<char>,
    icon_place: Option<Seq<char>>,
    uninstaller_place: Option<Seq<char>>,
) -> Option<Seq<char>> {
    if sanitized(stated).len() > 0 {
        Some(sanitized(stated))
    } else if usable_place(icon_place) is Some {
        usable_place(icon_place)
    } else {
        usable_place(uninstaller_place)
    }
}

fn derive_install_location_from_icon(place: &Option<String>) -> (r: Option<String>)
    ensures
        text::view_of(r) == usable_place(text::view_of(*place)),
{
    match place {
        Some(dir) => if is_shared_directory(dir.as_str()) {
            None
        } else {
            Some(dir.clone())
        },
        None => None,
    }
}

/// Where an application lies by its entry.
pub fn read_install_location_with_fallback(
    stated: &str,
    icon_place: &Option<String>,
    uninstaller_place: &Option<String>,
) -> (r: Option<String>)
    ensures
        text::view_of(r) == place_of_entry(
            stated@,
            text::view_of(*icon_place),
            text::view_of(*uninstaller_place),
        ),
{
    let plain = sanitize_search_text(stated);
    if !plain.as_str().is_empty() {
        return Some(plain);
    }
    let by_icon = derive_install_location_from_icon(icon_place);
    if by_icon.is_some() {
        return by_icon;
    }
    derive_install_location_from_icon(uninstaller_place)
}

} // verus!
