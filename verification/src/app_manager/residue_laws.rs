//! What is and what is not taken for a remain of an application.

use vstd::prelude::*;

use super::keywords::{match_text, windows_path};
use super::residue::{
    compared_components, folder_in_name, folder_name, is_context, is_entry_of, is_protected_path,
    is_protected_text, is_remain, last_component, last_longest, name_parts, publisher_position,
    StrictScanContext,
};
use super::uninstall_search::{is_hint, UninstallEntry};
use crate::path;
use crate::text;

verus! {

/// Whether a text holds a word of the system.
pub open spec fn speaks_of_the_system(lower: Seq<char>) -> bool {
    ||| text::contains_text(lower, "microsoft"@)
    ||| text::contains_text(lower, "windows"@)
    ||| text::contains_text(lower, "common files"@)
    ||| text::contains_text(lower, "tauri"@)
    ||| text::contains_text(lower, "webview2"@)
}

/// What holds a word of the system is never touched; nothing else is protected
/// by its words.
pub proof fn law_words_of_the_system_protect(lower: Seq<char>)
    ensures
        is_protected_text(lower) <==> speaks_of_the_system(lower),
{
    let parts = super::residue::protected_parts();
    assert(parts[0] == "microsoft" && parts[1] == "windows" && parts[2] == "common files"
        && parts[3] == "tauri" && parts[4] == "webview2");
    if speaks_of_the_system(lower) {
        assert(text::contains_text(lower, parts[0]@) || text::contains_text(lower, parts[1]@)
            || text::contains_text(lower, parts[2]@) || text::contains_text(lower, parts[3]@)
            || text::contains_text(lower, parts[4]@));
    }
    if is_protected_text(lower) {
        let i = choose|i: int| 0 <= i < parts.len() && text::contains_text(lower, parts[i]@);
        assert(i == 0 || i == 1 || i == 2 || i == 3 || i == 4);
    }
}

/// The application's own place is a remain of it, whoever its publisher is and
/// however its folder is called, unless it speaks of the system.
pub proof fn law_own_place_is_a_remain(path: Seq<char>, context: StrictScanContext)
    requires
        context.install_location is Some,
        text::lowercase(path) == context.install_location->0@,
        !speaks_of_the_system(text::lowercase(path)),
    ensures
        is_remain(path, context),
{
    law_words_of_the_system_protect(text::lowercase(path));
}

/// The place that was stated for an application is a remain of it.
pub proof fn law_stated_place_is_a_remain(
    path: Seq<char>,
    context: StrictScanContext,
    name: Seq<char>,
    publisher: Option<Seq<char>>,
    location: Seq<char>,
    entries: Seq<UninstallEntry>,
    present: Seq<String>,
)
    requires
        is_context(context, name, publisher, Some(location), entries, present),
        text::lowercase(path) == windows_path(location),
        windows_path(location).len() > 0,
        !speaks_of_the_system(text::lowercase(path)),
    ensures
        is_remain(path, context),
{
    law_own_place_is_a_remain(path, context);
}

/// Whether the application's folder is among the components of a path.
pub open spec fn leads_through_folder(path: Seq<char>, context: StrictScanContext) -> bool {
    compared_components(path).contains(context.app_folder_name@)
}

proof fn lemma_folder_is_a_component(path: Seq<char>, context: StrictScanContext)
    ensures
        leads_through_folder(path, context) <==> super::residue::has_folder_from(
            compared_components(path),
            context.app_folder_name@,
            0,
        ),
{
    let parts = compared_components(path);
    if leads_through_folder(path, context) {
        let i = choose|i: int| 0 <= i < parts.len() && parts[i] == context.app_folder_name@;
        assert(parts[i] == context.app_folder_name@);
    }
}

/// A path that leads through the application's folder and speaks neither of the
/// system nor of the publisher is a remain.
pub proof fn law_folder_without_publisher_is_a_remain(path: Seq<char>, context: StrictScanContext)
    requires
        leads_through_folder(path, context),
        !speaks_of_the_system(text::lowercase(path)),
        context.publisher_name is None || !text::contains_text(
            text::lowercase(path),
            context.publisher_name->0@,
        ),
    ensures
        is_remain(path, context),
{
    law_words_of_the_system_protect(text::lowercase(path));
    lemma_folder_is_a_component(path, context);
}

/// Whether a component is the publisher's.
pub open spec fn is_of_publisher(component: Seq<char>, publisher: Seq<char>) -> bool {
    text::contains_text(component, publisher) || text::contains_text(publisher, component)
}

proof fn lemma_publisher_position(parts: Seq<Seq<char>>, publisher: Seq<char>, i: int)
    requires
        0 <= i <= parts.len(),
    ensures
        ({
            let at = publisher_position(parts, publisher, i);
            &&& i <= at <= parts.len()
            &&& forall|j: int| i <= j < at ==> !is_of_publisher(#[trigger] parts[j], publisher)
            &&& at < parts.len() ==> is_of_publisher(parts[at], publisher)
        }),
    decreases parts.len() - i,
{
    if i < parts.len() && !super::residue::is_publisher_component(parts[i], publisher) {
        lemma_publisher_position(parts, publisher, i + 1);
    }
}

/// Of a path that speaks of the publisher, the application's folder has to lie
/// deeper than the publisher's: what is right in the publisher's folder, and
/// what belongs to its other applications, is no remain.
pub proof fn law_folder_lies_below_the_publisher(
    path: Seq<char>,
    context: StrictScanContext,
    p: int,
)
    requires
        !speaks_of_the_system(text::lowercase(path)),
        context.publisher_name is Some,
        text::contains_text(text::lowercase(path), context.publisher_name->0@),
        context.install_location matches Some(location) ==> location@ != text::lowercase(path),
        0 <= p < compared_components(path).len(),
        is_of_publisher(compared_components(path)[p], context.publisher_name->0@),
        forall|j: int|
            0 <= j < p ==> !is_of_publisher(
                #[trigger] compared_components(path)[j],
                context.publisher_name->0@,
            ),
    ensures
        is_remain(path, context) <==> exists|k: int|
            p < k < compared_components(path).len() && #[trigger] compared_components(path)[k]
                == context.app_folder_name@,
{
    law_words_of_the_system_protect(text::lowercase(path));
    let parts = compared_components(path);
    let publisher = context.publisher_name->0@;
    lemma_publisher_position(parts, publisher, 0);
    let at = publisher_position(parts, publisher, 0);
    if at < p {
        assert(!is_of_publisher(parts[at], publisher));
    }
    assert(at == p);
}

/// Nothing that does not lead through the application's folder is a remain, but
/// its own place.
pub proof fn law_foreign_paths_are_no_remains(path: Seq<char>, context: StrictScanContext)
    requires
        !leads_through_folder(path, context),
        context.install_location matches Some(location) ==> location@ != text::lowercase(path),
    ensures
        !is_remain(path, context),
{
    lemma_folder_is_a_component(path, context);
}

/// The system's directories and what lies below them, the directories of all
/// programs, and the roots of drives are never touched.
pub proof fn law_system_places_are_protected(path: Seq<char>, rest: Seq<char>)
    ensures
        text::lowercase(path) == "c:\\windows"@ ==> is_protected_path(path),
        text::lowercase(path) == "c:\\windows\\"@ + rest ==> is_protected_path(path),
        text::lowercase(path) == "c:\\program files"@ ==> is_protected_path(path),
        text::lowercase(path) == "c:\\program files (x86)"@ ==> is_protected_path(path),
        path::parent(path) is None ==> is_protected_path(path),
        speaks_of_the_system(text::lowercase(path)) ==> is_protected_path(path),
{
    let lower = text::lowercase(path);
    law_words_of_the_system_protect(lower);
    let paths = super::residue::protected_paths();
    assert(paths[0] == "c:\\windows" && paths[2] == "c:\\program files" && paths[3]
        == "c:\\program files (x86)");
    if lower == "c:\\windows\\"@ + rest {
        assert(lower.subrange(0, "c:\\windows\\"@.len() as int) =~= "c:\\windows\\"@);
    }
}

/// What speaks of the system nowhere, is no directory of all programs and has a
/// parent, is not protected.
pub proof fn law_other_places_are_not_protected(path: Seq<char>)
    requires
        path::parent(path) is Some,
        !speaks_of_the_system(text::lowercase(path)),
        text::lowercase(path) != "c:\\program files"@,
        text::lowercase(path) != "c:\\program files (x86)"@,
    ensures
        !is_protected_path(path),
{
    let lower = text::lowercase(path);
    law_words_of_the_system_protect(lower);
    let paths = super::residue::protected_paths();
    assert(paths[0] == "c:\\windows" && paths[1] == "c:\\windows\\system32" && paths[2]
        == "c:\\program files" && paths[3] == "c:\\program files (x86)");
    reveal_strlit("windows");
    reveal_strlit("c:\\windows");
    reveal_strlit("c:\\windows\\");
    reveal_strlit("c:\\windows\\system32");
    reveal_strlit("c:\\windows\\system32\\");
    assert forall|long: Seq<char>|
        (long == "c:\\windows"@ || long == "c:\\windows\\"@ || long == "c:\\windows\\system32"@
            || long == "c:\\windows\\system32\\"@) implies !(#[trigger] text::has_prefix(
        lower,
        long,
    )) by {
        if text::has_prefix(lower, long) {
            assert(lower.subrange(3, 10) =~= lower.subrange(0, long.len() as int).subrange(3, 10));
            assert(long.subrange(3, 10) =~= "windows"@);
            assert(text::stands_at(lower, "windows"@, 3));
        }
    }
    if text::among(paths, lower) {
        let i = choose|i: int| 0 <= i < paths.len() && paths[i]@ == lower;
        assert(lower.subrange(0, lower.len() as int) =~= lower);
        assert(text::has_prefix(lower, lower));
        assert(i == 0 || i == 1 || i == 2 || i == 3);
    }
}

/// An entry belongs to the application if it bears its name, or if one of its
/// commands holds a path that leads to it; otherwise it does not.
pub proof fn law_entries_of_the_application(entry: UninstallEntry, context: StrictScanContext)
    ensures
        match_text(entry.display_name@).len() > 0 && match_text(entry.display_name@)
            == context.app_name_exact@ ==> is_entry_of(entry, context),
        forall|i: int|
            0 <= i < context.uninstall_path_hints@.len() && (
            #[trigger] context.uninstall_path_hints@[i])@.len() > 0 && (text::contains_text(
                windows_path(entry.uninstall_string@),
                context.uninstall_path_hints@[i]@,
            ) || text::contains_text(
                windows_path(entry.quiet_uninstall_string@),
                context.uninstall_path_hints@[i]@,
            )) ==> is_entry_of(entry, context),
        is_entry_of(entry, context) ==> match_text(entry.display_name@) == context.app_name_exact@
            || exists|i: int|
            0 <= i < context.uninstall_path_hints@.len() && (
            #[trigger] context.uninstall_path_hints@[i])@.len() > 0 && (text::contains_text(
                windows_path(entry.uninstall_string@),
                context.uninstall_path_hints@[i]@,
            ) || text::contains_text(
                windows_path(entry.quiet_uninstall_string@),
                context.uninstall_path_hints@[i]@,
            )),
{
    let hints = context.uninstall_path_hints@;
    assert forall|i: int|
        0 <= i < hints.len() && (#[trigger] hints[i])@.len() > 0 && (text::contains_text(
            windows_path(entry.uninstall_string@),
            hints[i]@,
        ) || text::contains_text(
            windows_path(entry.quiet_uninstall_string@),
            hints[i]@,
        )) implies is_entry_of(entry, context) by {
        let usual = windows_path(entry.uninstall_string@);
        let quiet = windows_path(entry.quiet_uninstall_string@);
        if text::contains_text(usual, hints[i]@) {
            let k = choose|k: int| text::stands_at(usual, hints[i]@, k);
            assert(usual.len() > 0);
            assert(super::residue::holds_hint(usual, hints));
        } else {
            let k = choose|k: int| text::stands_at(quiet, hints[i]@, k);
            assert(quiet.len() > 0);
            assert(super::residue::holds_hint(quiet, hints));
        }
    }
}

/// The application's own place leads to it, and so does the program of either
/// command of an entry that bears its name; nothing else does.
pub proof fn law_what_leads_to_the_application(
    name: Seq<char>,
    place: Option<Seq<char>>,
    entries: Seq<UninstallEntry>,
    present: Seq<String>,
    hint: Seq<char>,
)
    ensures
        place is Some && windows_path(place->0).len() > 0 ==> is_hint(
            windows_path(place->0),
            name,
            place,
            entries,
            present,
        ),
        forall|i: int|
            0 <= i < entries.len() && match_text((#[trigger] entries[i]).display_name@) == name && (
            super::command_line::path_hint(entries[i].uninstall_string@, present) == Some(hint)
                || super::command_line::path_hint(entries[i].quiet_uninstall_string@, present)
                == Some(hint)) ==> is_hint(hint, name, place, entries, present),
        is_hint(hint, name, place, entries, present) ==> (place is Some && hint == windows_path(
            place->0,
        )) || exists|i: int|
            0 <= i < entries.len() && match_text((#[trigger] entries[i]).display_name@) == name,
{
}

/// The application's folder is the last name of its place; only where it has no
/// place, a part of its name stands for it.
pub proof fn law_place_gives_the_folder(name: Seq<char>, location: Seq<char>)
    ensures
        windows_path(location).len() > 0 && last_component(windows_path(location)) is Some
            ==> folder_name(name, Some(location)) == last_component(windows_path(location)),
        folder_name(name, None) == folder_in_name(match_text(name)),
{
}

/// The part of a name that stands for the folder is one of its parts, and none
/// of them is longer.
pub proof fn law_longest_part_stands_for_the_folder(parts: Seq<Seq<char>>)
    ensures
        parts.len() == 0 <==> last_longest(parts) is None,
        last_longest(parts) matches Some(best) ==> parts.contains(best) && forall|i: int|
            0 <= i < parts.len() ==> text::byte_len(#[trigger] parts[i]) <= text::byte_len(best),
        parts.len() > 0 && (forall|i: int|
            0 <= i < parts.len() ==> text::byte_len(#[trigger] parts[i]) <= text::byte_len(
                parts.last(),
            )) ==> last_longest(parts) == Some(parts.last()),
    decreases parts.len(),
{
    if parts.len() > 0 {
        let front = parts.drop_last();
        law_longest_part_stands_for_the_folder(front);
        let best = last_longest(parts)->0;
        if front.len() > 0 {
            let before = last_longest(front)->0;
            let k = choose|k: int| 0 <= k < front.len() && front[k] == before;
            assert(parts[k] == before);
            assert(parts[parts.len() - 1] == parts.last());
            assert forall|i: int| 0 <= i < parts.len() implies text::byte_len(#[trigger] parts[i])
                <= text::byte_len(best) by {
                if i < front.len() {
                    assert(front[i] == parts[i]);
                }
            }
        } else {
            assert(parts[0] == parts.last());
        }
    }
}

/// A name without characters that no file name holds is itself the folder, but
/// for the blanks around it.
pub proof fn law_plain_name_is_the_folder(name: Seq<char>)
    requires
        forall|i: int| 0 <= i < name.len() ==> !text::is_forbidden_char(#[trigger] name[i]),
        text::trimmed(name, text::CharSet::Whitespace).len() > 0,
    ensures
        folder_in_name(name) == Some(text::trimmed(name, text::CharSet::Whitespace)),
{
    lemma_one_piece(name, text::CharSet::Forbidden);
    let plain = text::trimmed(name, text::CharSet::Whitespace);
    assert(name_parts(name) =~= seq![plain]);
    assert(seq![plain].drop_last() =~= Seq::<Seq<char>>::empty());
    assert(text::filled(seq![plain].drop_last()) =~= Seq::<Seq<char>>::empty());
    assert(text::filled(seq![plain]) =~= seq![plain]);
    assert(last_longest(seq![plain].drop_last()) is None);
}

pub proof fn lemma_one_piece(s: Seq<char>, set: text::CharSet)
    requires
        forall|i: int| 0 <= i < s.len() ==> !set.holds(#[trigger] s[i]),
    ensures
        text::pieces(s, set) == seq![s],
    decreases s.len(),
{
    if s.len() == 0 {
        assert(s =~= Seq::<char>::empty());
    } else {
        let front = s.drop_last();
        assert forall|i: int| 0 <= i < front.len() implies !set.holds(#[trigger] front[i]) by {
            assert(front[i] == s[i]);
        }
        lemma_one_piece(front, set);
        assert(!set.holds(s[s.len() - 1]));
        assert(front.push(s.last()) =~= s);
        assert(text::pieces(s, set) =~= seq![s]);
    }
}

} // verus!
