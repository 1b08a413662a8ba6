//! What the search for applications promises: what is listed, what is not, and
//! that nothing is lost on the way.

use vstd::prelude::*;

use super::scan_rules;
use super::scan_rules::{
    is_blacklisted, is_component_name, is_container, is_evidence, is_installer_name, is_skippable,
    names_go_together, DirItem,
};
use super::scanner::{
    cleaned, drive_roots, first_entries, first_program, is_accepted, is_added, is_deduped,
    is_inside, is_other_mount, is_outermost, is_program, is_registry_app, is_shortcut_app,
    is_worth_reading, lies_in_another, new_apps, outermost, place, preferred_roots,
    resolved_location, shortcut_location, shortcut_name, usual_roots, DriveFacts, FileFacts,
    FoundApp, RegistryEntry, ShortcutProbe, UsualPlaces, PREFERRED_SCAN_DEPTH, SCAN_DEPTH,
};
use crate::list;
use crate::list::holds_text;
use crate::models::InstalledApp;
use crate::path;
use crate::text;
use crate::text::CharSet;

verus! {

/// Whether a text names a place of the store's applications.
pub open spec fn is_of_the_store(lower: Seq<char>) -> bool {
    ||| text::contains_text(lower, "\\windowsapps\\"@)
    ||| text::contains_text(lower, "\\program files\\windowsapps"@)
    ||| text::contains_text(lower, "\\program files (x86)\\windowsapps"@)
}

proof fn lemma_store_parts(lower: Seq<char>)
    ensures
        text::contains_one(super::scanner::store_parts(), lower) <==> is_of_the_store(lower),
{
    let parts = super::scanner::store_parts();
    assert(parts[0] == "\\windowsapps\\" && parts[1] == "\\program files\\windowsapps" && parts[2]
        == "\\program files (x86)\\windowsapps");
    if is_of_the_store(lower) {
        assert(text::contains_text(lower, parts[0]@) || text::contains_text(lower, parts[1]@)
            || text::contains_text(lower, parts[2]@));
    }
    if text::contains_one(parts, lower) {
        let i = choose|i: int| 0 <= i < parts.len() && text::contains_text(lower, parts[i]@);
        assert(i == 0 || i == 1 || i == 2);
    }
}

/// An entry with a name that is no part of the system's, and with a home of its
/// own outside the store, is listed where that home exists and where it is a
/// link, and nowhere else.
pub proof fn law_entry_with_a_home_is_listed(entry: RegistryEntry)
    requires
        entry.display_name@.len() > 0,
        !is_component_name(entry.display_name@),
        entry.install_location@.len() > 0,
        !is_container(entry.install_location@),
        !is_of_the_store(text::lowercase(entry.install_location@)),
    ensures
        entry.location_exists ==> is_registry_app(entry),
        entry.location_is_link ==> is_registry_app(entry),
        !entry.location_exists && !entry.location_is_link ==> !is_registry_app(entry),
{
    lemma_store_parts(text::lowercase(entry.install_location@));
}

/// An application that is listed stays listed when its home becomes a link: to
/// move it does not remove it from the list.
pub proof fn law_moved_application_stays_listed(before: RegistryEntry, after: RegistryEntry)
    requires
        is_registry_app(before),
        after.display_name@ == before.display_name@,
        after.install_location@ == before.install_location@,
        after.location_is_link || after.location_exists,
    ensures
        is_registry_app(after),
{
}

/// Nothing without a name or a place, no part of the system, no collection and
/// nothing of the store is listed.
pub proof fn law_what_is_no_application_is_not_listed(entry: RegistryEntry)
    requires
        entry.display_name@.len() == 0 || is_component_name(entry.display_name@)
            || entry.install_location@.len() == 0 || is_container(entry.install_location@)
            || is_of_the_store(text::lowercase(entry.install_location@)),
    ensures
        !is_registry_app(entry),
{
    lemma_store_parts(text::lowercase(entry.install_location@));
}

/// Whether a name, in lower case, is that of a patch or another part of the
/// system.
pub open spec fn speaks_of_a_component(lower: Seq<char>) -> bool {
    ||| text::contains_text(lower, "update for"@)
    ||| text::contains_text(lower, "security update"@)
    ||| text::contains_text(lower, "hotfix"@)
    ||| text::contains_text(lower, "language pack"@)
    ||| text::contains_text(lower, "service pack"@)
    ||| text::contains_text(lower, "deploymentagent"@)
    ||| text::contains_text(lower, "darkmodecheck"@)
    ||| text::has_prefix(lower, "microsoft .net"@)
    ||| text::has_prefix(lower, "microsoft visual c++"@)
    ||| text::has_prefix(lower, "microsoft.windowsappruntime"@)
    ||| text::has_prefix(lower, "microsoft.ui.xaml"@)
    ||| text::has_prefix(lower, "microsoft.vclibs"@)
    ||| text::has_prefix(lower, "microsoft.net.native"@)
}

/// A name that begins with `KB` is that of a patch exactly if only digits
/// follow; any other is one of the system's exactly if its words say so.
pub proof fn law_names_of_components(name: Seq<char>, rest: Seq<char>)
    ensures
        name == "KB"@ + rest && rest.len() > 0 ==> (is_component_name(name) <==> text::is_digits(
            rest,
        )),
        !text::has_prefix(name, "KB"@) ==> (is_component_name(name) <==> speaks_of_a_component(
            text::lowercase(name),
        )),
{
    reveal_strlit("KB");
    if name == "KB"@ + rest && rest.len() > 0 {
        assert(name.subrange(0, 2) =~= "KB"@);
        assert forall|i: int| 0 <= i < rest.len() implies #[trigger] rest[i] == name[i + 2] by {}
        if is_component_name(name) {
            assert forall|i: int| 0 <= i < rest.len() implies text::is_ascii_digit(
                #[trigger] rest[i],
            ) by {
                assert(text::is_ascii_digit(name[i + 2]));
            }
        }
        if text::is_digits(rest) {
            assert forall|i: int| 2 <= i < name.len() implies text::is_ascii_digit(
                #[trigger] name[i],
            ) by {
                assert(name[i] == rest[i - 2]);
            }
        }
    }
    let lower = text::lowercase(name);
    let words = scan_rules::component_words();
    let heads = scan_rules::component_beginnings();
    assert(words[0] == "update for" && words[1] == "security update" && words[2] == "hotfix"
        && words[3] == "language pack" && words[4] == "service pack" && words[5]
        == "deploymentagent" && words[6] == "darkmodecheck");
    assert(heads[0] == "microsoft .net" && heads[1] == "microsoft visual c++" && heads[2]
        == "microsoft.windowsappruntime" && heads[3] == "microsoft.ui.xaml" && heads[4]
        == "microsoft.vclibs" && heads[5] == "microsoft.net.native");
    if text::contains_one(words, lower) {
        let i = choose|i: int| 0 <= i < words.len() && text::contains_text(lower, words[i]@);
        assert(i == 0 || i == 1 || i == 2 || i == 3 || i == 4 || i == 5 || i == 6);
    }
    if text::begins_with_one(heads, lower) {
        let i = choose|i: int| 0 <= i < heads.len() && text::has_prefix(lower, heads[i]@);
        assert(i == 0 || i == 1 || i == 2 || i == 3 || i == 4 || i == 5);
    }
    if speaks_of_a_component(lower) {
        assert(text::contains_text(lower, words[0]@) || text::contains_text(lower, words[1]@)
            || text::contains_text(lower, words[2]@) || text::contains_text(lower, words[3]@)
            || text::contains_text(lower, words[4]@) || text::contains_text(lower, words[5]@)
            || text::contains_text(lower, words[6]@) || text::has_prefix(lower, heads[0]@)
            || text::has_prefix(lower, heads[1]@) || text::has_prefix(lower, heads[2]@)
            || text::has_prefix(lower, heads[3]@) || text::has_prefix(lower, heads[4]@)
            || text::has_prefix(lower, heads[5]@));
    }
}

/// Whether a place, in lower case and without separators at its end, ends like
/// a directory that only collects.
pub open spec fn ends_like_a_collection(lower: Seq<char>) -> bool {
    ||| text::has_suffix(lower, "\\appdata\\local"@)
    ||| text::has_suffix(lower, "\\appdata\\roaming"@)
    ||| text::has_suffix(lower, "\\appdata\\locallow"@)
    ||| text::has_suffix(lower, "\\appdata\\local\\programs"@)
    ||| text::has_suffix(lower, "\\appdata"@)
    ||| text::has_suffix(lower, "\\desktop"@)
    ||| text::has_suffix(lower, "\\downloads"@)
    ||| text::has_suffix(lower, "\\programdata"@)
    ||| text::has_suffix(lower, "\\users\\public"@)
}

/// A directory of users' data, a drive, and a path of one component are no home
/// of one application; any other is.
pub proof fn law_collections_are_no_homes(path: Seq<char>)
    ensures
        ({
            let lower = text::trimmed_end(text::lowercase(path), CharSet::Two('\\', '/'));
            is_container(path) <==> ends_like_a_collection(lower) || path::components(path).len()
                <= 1 || (lower.len() == 2 && text::is_ascii(lower[0]) && lower[1] == ':')
        }),
{
    let lower = text::trimmed_end(text::lowercase(path), CharSet::Two('\\', '/'));
    let ends = scan_rules::container_endings();
    assert(ends[0] == "\\appdata\\local" && ends[1] == "\\appdata\\roaming" && ends[2]
        == "\\appdata\\locallow" && ends[3] == "\\appdata\\local\\programs" && ends[4]
        == "\\appdata" && ends[5] == "\\desktop" && ends[6] == "\\downloads" && ends[7]
        == "\\programdata" && ends[8] == "\\users\\public");
    if text::ends_with_one(ends, lower) {
        let i = choose|i: int| 0 <= i < ends.len() && text::has_suffix(lower, ends[i]@);
        assert(i == 0 || i == 1 || i == 2 || i == 3 || i == 4 || i == 5 || i == 6 || i == 7 || i
            == 8);
    }
    if ends_like_a_collection(lower) {
        assert(text::has_suffix(lower, ends[0]@) || text::has_suffix(lower, ends[1]@)
            || text::has_suffix(lower, ends[2]@) || text::has_suffix(lower, ends[3]@)
            || text::has_suffix(lower, ends[4]@) || text::has_suffix(lower, ends[5]@)
            || text::has_suffix(lower, ends[6]@) || text::has_suffix(lower, ends[7]@)
            || text::has_suffix(lower, ends[8]@));
    }
}

/// The place that an entry states is taken unless it is none or a collection;
/// else the icon leads to it, and without an icon the uninstaller does.
pub proof fn law_place_of_an_entry(
    raw: Seq<char>,
    icon: Option<Seq<char>>,
    uninstaller: Option<Seq<char>>,
)
    ensures
        cleaned(raw).len() > 0 && !is_container(cleaned(raw)) ==> resolved_location(
            raw,
            icon,
            uninstaller,
        ) == cleaned(raw),
        (cleaned(raw).len() == 0 || is_container(cleaned(raw))) && icon is Some
            ==> resolved_location(raw, icon, uninstaller) == text::trimmed_end(
            icon->0,
            CharSet::Two('\\', '/'),
        ),
        (cleaned(raw).len() == 0 || is_container(cleaned(raw))) && icon is None && uninstaller
            is Some ==> resolved_location(raw, icon, uninstaller) == text::trimmed_end(
            uninstaller->0,
            CharSet::Two('\\', '/'),
        ),
{
}

/// Every entry of a list is kept, or one before it with the same name and place
/// is; of two entries that are kept, name or place differ; and what is kept
/// stands in the list.
pub proof fn law_every_entry_is_kept_once(apps: Seq<InstalledApp>)
    ensures
        forall|i: int|
            0 <= i < apps.len() ==> exists|k: int|
                0 <= k < first_entries(apps).len() && (#[trigger] first_entries(
                    apps,
                )[k]).display_name@ == (#[trigger] apps[i]).display_name@ && place(
                    first_entries(apps)[k],
                ) == place(apps[i]),
        forall|i: int, k: int|
            0 <= i < k < first_entries(apps).len() ==> (#[trigger] first_entries(
                apps,
            )[i]).display_name@ != (#[trigger] first_entries(apps)[k]).display_name@ || place(
                first_entries(apps)[i],
            ) != place(first_entries(apps)[k]),
        forall|k: int|
            0 <= k < first_entries(apps).len() ==> apps.contains(#[trigger] first_entries(apps)[k]),
    decreases apps.len(),
{
    if apps.len() > 0 {
        let front = apps.drop_last();
        law_every_entry_is_kept_once(front);
        let before = first_entries(front);
        let kept = first_entries(apps);
        let last = apps.last();
        assert(apps[apps.len() - 1] == last);
        assert forall|i: int| 0 <= i < apps.len() implies exists|k: int|
            0 <= k < kept.len() && (#[trigger] kept[k]).display_name@ == (
            #[trigger] apps[i]).display_name@ && place(kept[k]) == place(apps[i]) by {
            let m = if i < front.len() {
                i
            } else if exists|j: int|
                0 <= j < front.len() && super::scanner::same_entry(#[trigger] front[j], last) {
                choose|j: int|
                    0 <= j < front.len() && super::scanner::same_entry(#[trigger] front[j], last)
            } else {
                -1
            };
            if m >= 0 {
                assert(front[m] == apps[m]);
                let k = choose|k: int|
                    0 <= k < before.len() && (#[trigger] before[k]).display_name@
                        == front[m].display_name@ && place(before[k]) == place(front[m]);
                assert(kept[k] == before[k]);
            } else {
                assert(kept[kept.len() - 1] == last);
            }
        }
        assert forall|i: int, k: int| 0 <= i < k < kept.len() implies (
        #[trigger] kept[i]).display_name@ != (#[trigger] kept[k]).display_name@ || place(kept[i])
            != place(kept[k]) by {
            assert(kept[i] == before[i]);
            if k < before.len() {
                assert(kept[k] == before[k]);
            } else {
                assert(front.contains(before[i]));
                let j = choose|j: int| 0 <= j < front.len() && front[j] == before[i];
                assert(!super::scanner::same_entry(front[j], last));
            }
        }
        assert forall|k: int| 0 <= k < kept.len() implies apps.contains(#[trigger] kept[k]) by {
            if k < before.len() {
                assert(kept[k] == before[k]);
                let j = choose|j: int| 0 <= j < front.len() && front[j] == before[k];
                assert(apps[j] == kept[k]);
            }
        }
    }
}

/// Every application at a place that was not known is added, or another at the
/// same place is; and no place is added twice.
pub proof fn law_every_new_place_is_added_once(apps: Seq<InstalledApp>, known: Seq<String>)
    ensures
        forall|i: int|
            0 <= i < apps.len() && !holds_text(known, place(#[trigger] apps[i])) ==> exists|k: int|
                0 <= k < new_apps(apps, known).len() && place(#[trigger] new_apps(apps, known)[k])
                    == place(apps[i]),
        forall|i: int, k: int|
            0 <= i < k < new_apps(apps, known).len() ==> place(#[trigger] new_apps(apps, known)[i])
                != place(#[trigger] new_apps(apps, known)[k]),
        forall|k: int|
            0 <= k < new_apps(apps, known).len() ==> apps.contains(
                #[trigger] new_apps(apps, known)[k],
            ) && !holds_text(known, place(new_apps(apps, known)[k])),
    decreases apps.len(),
{
    if apps.len() > 0 {
        let front = apps.drop_last();
        law_every_new_place_is_added_once(front, known);
        let before = new_apps(front, known);
        let kept = new_apps(apps, known);
        let last = apps.last();
        assert(apps[apps.len() - 1] == last);
        assert forall|i: int|
            0 <= i < apps.len() && !holds_text(known, place(#[trigger] apps[i])) implies exists|
            k: int,
        | 0 <= k < kept.len() && place(#[trigger] kept[k]) == place(apps[i]) by {
            let m = if i < front.len() {
                i
            } else if exists|j: int|
                0 <= j < front.len() && place(#[trigger] front[j]) == place(last) {
                choose|j: int| 0 <= j < front.len() && place(#[trigger] front[j]) == place(last)
            } else {
                -1
            };
            if m >= 0 {
                assert(front[m] == apps[m]);
                let k = choose|k: int|
                    0 <= k < before.len() && place(#[trigger] before[k]) == place(front[m]);
                assert(kept[k] == before[k]);
            } else {
                assert(kept[kept.len() - 1] == last);
            }
        }
        assert forall|i: int, k: int| 0 <= i < k < kept.len() implies place(#[trigger] kept[i])
            != place(#[trigger] kept[k]) by {
            assert(kept[i] == before[i]);
            if k < before.len() {
                assert(kept[k] == before[k]);
            } else {
                assert(front.contains(before[i]));
                let j = choose|j: int| 0 <= j < front.len() && front[j] == before[i];
                assert(place(front[j]) != place(last));
            }
        }
        assert forall|k: int| 0 <= k < kept.len() implies apps.contains(#[trigger] kept[k])
            && !holds_text(known, place(kept[k])) by {
            if k < before.len() {
                assert(kept[k] == before[k]);
                let j = choose|j: int| 0 <= j < front.len() && front[j] == before[k];
                assert(apps[j] == kept[k]);
            }
        }
    }
}

/// What stands below a directory lies inside it; what merely begins like it does
/// not, and neither does the directory itself.
pub proof fn law_inside_means_below(outer: Seq<char>, rest: Seq<char>)
    ensures
        is_inside(outer + seq!['\\'] + rest, outer),
        rest.len() > 0 && rest[0] != '\\' ==> !is_inside(outer + rest, outer),
        !is_inside(outer, outer),
{
    let inner = outer + seq!['\\'] + rest;
    assert(inner.subrange(0, outer.len() as int) =~= outer);
    if rest.len() > 0 {
        assert((outer + rest)[outer.len() as int] == rest[0]);
    }
}

/// Of a list exactly those applications are dropped that stand below another of
/// the list; the others stay.
pub proof fn law_only_parts_of_others_are_dropped(
    apps: Seq<InstalledApp>,
    r: Seq<InstalledApp>,
    app: InstalledApp,
)
    requires
        is_deduped(apps, r),
        apps.contains(app),
    ensures
        r.contains(app) <==> !exists|j: int, rest: Seq<char>|
            0 <= j < apps.len() && place(app) == #[trigger] (place(#[trigger] apps[j])
                + seq!['\\'] + rest),
{
    let sorted = choose|sorted: Seq<InstalledApp>| #[trigger]
        list::is_sorted_by(apps, sorted, super::scanner::by_place()) && r == outermost(sorted);
    let p = choose|p: Seq<int>|
        list::is_arranged_by(apps, sorted, super::scanner::by_place(), p);
    let keeps = is_outermost(sorted);
    let i = choose|i: int| 0 <= i < apps.len() && apps[i] == app;
    list::lemma_every_position_occurs(p, apps.len() as int, i);
    let k = choose|k: int| 0 <= k < p.len() && #[trigger] p[k] == i;
    assert(sorted[k] == app);
    if exists|j: int, rest: Seq<char>|
        0 <= j < apps.len() && place(app) == #[trigger] (place(#[trigger] apps[j]) + seq!['\\']
            + rest) {
        let (j, rest) = choose|j: int, rest: Seq<char>|
            0 <= j < apps.len() && place(app) == #[trigger] (place(#[trigger] apps[j]) + seq!['\\']
                + rest);
        law_inside_means_below(place(apps[j]), rest);
        list::lemma_every_position_occurs(p, apps.len() as int, j);
        let m = choose|m: int| 0 <= m < p.len() && #[trigger] p[m] == j;
        assert(is_inside(place(app), place(sorted[m])));
        assert(lies_in_another(sorted, app));
        if r.contains(app) {
            let n = choose|n: int| 0 <= n < r.len() && r[n] == app;
            sorted.lemma_filter_pred(keeps, n);
        }
    } else {
        if lies_in_another(sorted, app) {
            let m = choose|m: int|
                0 <= m < sorted.len() && is_inside(place(app), place(#[trigger] sorted[m]));
            let outer = place(sorted[m]);
            let rest = place(app).skip(outer.len() as int + 1);
            assert(place(app).subrange(0, outer.len() as int) =~= outer);
            assert(place(app) =~= outer + seq!['\\'] + rest);
            assert(sorted[m] == apps[p[m]]);
            assert(place(app) == place(apps[p[m]]) + seq!['\\'] + rest);
        }
        sorted.lemma_filter_contains(keeps, k);
    }
}

/// Whether a file name in lower case holds a word of installers.
pub open spec fn speaks_of_installing(name: Seq<char>) -> bool {
    ||| text::contains_text(name, "setup"@)
    ||| text::contains_text(name, "install"@)
    ||| text::contains_text(name, "update"@)
    ||| text::contains_text(name, "upgrader"@)
    ||| text::contains_text(name, "uninst"@)
    ||| text::has_prefix(name, "unins"@)
    ||| text::has_suffix(name, "_x64.exe"@)
    ||| text::has_suffix(name, "_x86.exe"@)
    ||| text::has_suffix(name, ".msi"@)
}

/// A name that speaks of installing, or that holds a version, is an installer's;
/// one that holds neither such a word nor a digit is none.
pub proof fn law_names_of_installers(name: Seq<char>)
    ensures
        speaks_of_installing(name) ==> is_installer_name(name),
        forall|i: int|
            0 <= i && i + 2 < name.len() && text::is_ascii_digit(#[trigger] name[i]) && name[i + 1]
                == '.' && text::is_ascii_digit(name[i + 2]) ==> is_installer_name(name),
        !speaks_of_installing(name) && (forall|i: int|
            0 <= i < name.len() ==> !text::is_ascii_digit(#[trigger] name[i]))
            ==> !is_installer_name(name),
{
    let words = scan_rules::installer_words();
    let ends = scan_rules::installer_endings();
    assert(words[0] == "setup" && words[1] == "install" && words[2] == "update" && words[3]
        == "upgrader" && words[4] == "uninst");
    assert(ends[0] == "_x64.exe" && ends[1] == "_x86.exe" && ends[2] == ".msi");
    if speaks_of_installing(name) {
        assert(text::contains_text(name, words[0]@) || text::contains_text(name, words[1]@)
            || text::contains_text(name, words[2]@) || text::contains_text(name, words[3]@)
            || text::contains_text(name, words[4]@) || text::has_prefix(name, "unins"@)
            || text::has_suffix(name, ends[0]@) || text::has_suffix(name, ends[1]@)
            || text::has_suffix(name, ends[2]@));
    }
    assert forall|i: int|
        0 <= i && i + 2 < name.len() && text::is_ascii_digit(#[trigger] name[i]) && name[i + 1]
            == '.' && text::is_ascii_digit(name[i + 2]) implies is_installer_name(name) by {
        assert(scan_rules::dotted_digits_at(name, i));
    }
    if text::contains_one(words, name) {
        let i = choose|i: int| 0 <= i < words.len() && text::contains_text(name, words[i]@);
        assert(i == 0 || i == 1 || i == 2 || i == 3 || i == 4);
    }
    if text::ends_with_one(ends, name) {
        let i = choose|i: int| 0 <= i < ends.len() && text::has_suffix(name, ends[i]@);
        assert(i == 0 || i == 1 || i == 2);
    }
    if forall|i: int| 0 <= i < name.len() ==> !text::is_ascii_digit(#[trigger] name[i]) {
        if scan_rules::has_four_digits(name) {
            let i = choose|i: int| #[trigger] scan_rules::four_digits_at(name, i);
            assert(!text::is_ascii_digit(name[i]));
        }
        if scan_rules::has_dotted_digits(name) {
            let i = choose|i: int| #[trigger] scan_rules::dotted_digits_at(name, i);
            assert(!text::is_ascii_digit(name[i]));
        }
    }
}

/// A shortcut to a program that exists, is no installer, and lies at home in a
/// directory that is neither known nor one of the system's nor a collection, is
/// an application; without any one of these it is none.
pub proof fn law_shortcuts_lead_to_applications(probe: ShortcutProbe, known: Seq<String>)
    requires
        path::parent(probe.target@) is Some,
        shortcut_name(probe).len() > 0,
    ensures
        path::last_extension(probe.target@) == Some("exe"@) && probe.target_exists && probe.is_home
            && !is_installer_name(text::lowercase(path::last_name(probe.target@)->0))
            && !holds_text(
            known,
            scan_rules::normalized_path(shortcut_location(probe)),
        ) && !text::contains_one(
            scan_rules::system_parts(),
            text::lowercase(shortcut_location(probe)),
        ) && !is_container(shortcut_location(probe)) ==> is_shortcut_app(probe, known),
        path::last_extension(probe.target@) != Some("exe"@) ==> !is_shortcut_app(probe, known),
        !probe.target_exists ==> !is_shortcut_app(probe, known),
        !probe.is_home ==> !is_shortcut_app(probe, known),
        is_installer_name(text::lowercase(path::last_name(probe.target@)->0))
            ==> !is_shortcut_app(probe, known),
        holds_text(known, scan_rules::normalized_path(shortcut_location(probe)))
            ==> !is_shortcut_app(probe, known),
        is_container(shortcut_location(probe)) ==> !is_shortcut_app(probe, known),
{
}

/// The more places are known, the fewer shortcuts lead to something new.
pub proof fn law_known_places_only_take_away(
    probe: ShortcutProbe,
    known: Seq<String>,
    more: Seq<String>,
)
    requires
        forall|t: Seq<char>| #[trigger] holds_text(known, t) ==> holds_text(more, t),
        is_shortcut_app(probe, more),
    ensures
        is_shortcut_app(probe, known),
{
}

/// A shortcut's own name is the application's.
pub proof fn law_shortcut_gives_the_name(probe: ShortcutProbe)
    ensures
        path::last_stem(probe.shortcut@).len() > 0 ==> shortcut_name(probe) == path::last_stem(
            probe.shortcut@,
        ),
        path::last_stem(probe.shortcut@).len() == 0 ==> shortcut_name(probe) == path::last_stem(
            probe.target@,
        ),
{
}

/// At a place that is registered a program counts whatever it is called, unless
/// the place is a link; elsewhere it counts unless its name holds a version.
pub proof fn law_programs_that_count(found: FoundApp, known: Seq<String>)
    ensures
        ({
            let is_known = holds_text(known, scan_rules::normalized_path(found.directory@));
            let is_versioned = scan_rules::has_version(path::last_stem(found.exe_path@));
            &&& is_known && !found.is_link ==> is_accepted(found, known)
            &&& is_known && found.is_link ==> !is_accepted(found, known)
            &&& !is_known && !is_versioned ==> is_accepted(found, known)
            &&& !is_known && is_versioned ==> !is_accepted(found, known)
        }),
{
}

/// Four digits in a row, a `v` before a digit, and a dot between digits make a
/// version; a name without digits holds none.
pub proof fn law_what_a_version_is(stem: Seq<char>)
    ensures
        ({
            let s = text::lowercase(stem);
            &&& forall|i: int|
                0 <= i && i + 1 < s.len() && #[trigger] s[i] == 'v' && text::is_ascii_digit(
                    s[i + 1],
                ) ==> scan_rules::has_version(stem)
            &&& forall|i: int|
                0 <= i && i + 3 < s.len() && text::is_ascii_digit(#[trigger] s[i])
                    && text::is_ascii_digit(s[i + 1]) && text::is_ascii_digit(s[i + 2])
                    && text::is_ascii_digit(s[i + 3]) ==> scan_rules::has_version(stem)
            &&& forall|i: int|
                0 <= i && i + 2 < s.len() && text::is_ascii_digit(#[trigger] s[i]) && s[i + 1]
                    == '.' && text::is_ascii_digit(s[i + 2]) ==> scan_rules::has_version(stem)
            &&& (forall|i: int| 0 <= i < s.len() ==> !text::is_ascii_digit(#[trigger] s[i]))
                ==> !scan_rules::has_version(stem)
        }),
{
    let s = text::lowercase(stem);
    assert forall|i: int|
        0 <= i && i + 3 < s.len() && text::is_ascii_digit(#[trigger] s[i]) && text::is_ascii_digit(
            s[i + 1],
        ) && text::is_ascii_digit(s[i + 2]) && text::is_ascii_digit(s[i + 3]) implies
        scan_rules::has_version(stem) by {
        assert(scan_rules::four_digits_at(s, i));
    }
    assert forall|i: int|
        0 <= i && i + 2 < s.len() && text::is_ascii_digit(#[trigger] s[i]) && s[i + 1] == '.'
            && text::is_ascii_digit(s[i + 2]) implies scan_rules::has_version(stem) by {
        assert(scan_rules::dotted_digits_at(s, i));
    }
    if forall|i: int| 0 <= i < s.len() ==> !text::is_ascii_digit(#[trigger] s[i]) {
        if scan_rules::has_four_digits(s) {
            let i = choose|i: int| #[trigger] scan_rules::four_digits_at(s, i);
            assert(!text::is_ascii_digit(s[i]));
        }
        if scan_rules::has_dotted_digits(s) {
            let i = choose|i: int| #[trigger] scan_rules::dotted_digits_at(s, i);
            assert(!text::is_ascii_digit(s[i]));
        }
    }
}

/// What was found is added once: it is new where neither its directory is
/// registered nor its directory or program was seen, and then only it is seen.
pub proof fn law_found_application_is_added_once(
    found: FoundApp,
    known: Seq<String>,
    seen: Seq<String>,
)
    requires
        !is_container(found.directory@),
        scan_rules::normalized_path(found.directory@).len() > 0,
        scan_rules::normalized_path(found.exe_path@).len() > 0,
        path::last_stem(found.exe_path@).len() > 0,
    ensures
        is_added(found, known, seen) <==> !holds_text(
            known,
            scan_rules::normalized_path(found.directory@),
        ) && !holds_text(seen, scan_rules::normalized_path(found.directory@)) && !holds_text(
            seen,
            scan_rules::normalized_path(found.exe_path@),
        ),
{
}

/// A directory that is too deep, known to hold no applications, or called like
/// one that holds none is not read; without such a reason it is.
pub proof fn law_directories_that_are_read(
    dir: Seq<char>,
    depth: usize,
    max_depth: usize,
    temp: Option<Seq<char>>,
    name: Seq<char>,
)
    requires
        path::last_name(dir) == Some(name),
    ensures
        is_worth_reading(dir, depth, max_depth, None, temp) <==> depth <= max_depth
            && !is_blacklisted(dir, temp) && !is_skippable(name) && text::ascii_lowercase(name)
            != text::ascii_lowercase("InstallShield Installation Information"@),
        is_worth_reading(dir, depth, max_depth, None, temp) && 0 < depth ==> is_worth_reading(
            dir,
            (depth - 1) as usize,
            max_depth,
            None,
            temp,
        ),
{
}

/// The directories of the system and of the store, and what lies in that of
/// temporary files, hold no applications.
pub proof fn law_directories_without_applications(path: Seq<char>, temp: Seq<char>, name: Seq<char>)
    ensures
        path::last_name(path) == Some(name) && (text::lowercase(name) == "windows"@
            || text::lowercase(name) == "$recycle.bin"@ || text::lowercase(name)
            == "system volume information"@) ==> is_blacklisted(path, None),
        text::has_suffix(text::lowercase(path), "\\windows.old"@) ==> is_blacklisted(path, None),
        text::has_prefix(text::lowercase(path), scan_rules::normalized_path(temp))
            ==> is_blacklisted(path, Some(temp)),
        text::contains_text(text::lowercase(path), "\\program files\\common files"@)
            ==> is_blacklisted(path, None),
        text::contains_text(text::lowercase(path), "\\windowsapps\\"@) ==> is_blacklisted(
            path,
            None,
        ),
        text::contains_text(text::lowercase(path), "\\programdata\\package cache"@)
            ==> is_blacklisted(path, None),
        is_blacklisted(path, None) ==> is_blacklisted(path, Some(temp)),
{
    let core = scan_rules::core_blacklist();
    assert(core[0] == "windows" && core[1] == "$recycle.bin" && core[2]
        == "system volume information");
    let parts = scan_rules::extended_blacklist();
    assert(parts[5] == "\\program files\\common files" && parts[11] == "\\windowsapps\\"
        && parts[4] == "\\programdata\\package cache");
    let lower = text::lowercase(path);
    if text::contains_text(lower, "\\program files\\common files"@) {
        assert(text::contains_text(lower, parts[5]@));
    }
    if text::contains_text(lower, "\\windowsapps\\"@) {
        assert(text::contains_text(lower, parts[11]@));
    }
    if text::contains_text(lower, "\\programdata\\package cache"@) {
        assert(text::contains_text(lower, parts[4]@));
    }
    if path::last_name(path) == Some(name) && text::lowercase(name) == "windows"@ {
        assert(core[0]@ == text::lowercase(name));
    }
    if path::last_name(path) == Some(name) && text::lowercase(name) == "$recycle.bin"@ {
        assert(core[1]@ == text::lowercase(name));
    }
    if path::last_name(path) == Some(name) && text::lowercase(name)
        == "system volume information"@ {
        assert(core[2]@ == text::lowercase(name));
    }
}

/// Every drive but the system's is searched whole, and so is every directory of
/// programs on it.
pub proof fn law_other_drives_are_searched(drives: Seq<DriveFacts>, k: int, d: int)
    requires
        0 <= k < drives.len(),
        is_other_mount(drives[k].mount@),
    ensures
        drive_roots(drives).contains((drives[k].mount@, SCAN_DEPTH)),
        0 <= d < drives[k].program_dirs@.len() ==> preferred_roots(drives).contains(
            (drives[k].program_dirs@[d]@, PREFERRED_SCAN_DEPTH),
        ),
    decreases drives.len(),
{
    let front = drives.drop_last();
    let old_drives = drive_roots(front);
    let all_drives = drive_roots(drives);
    let old_dirs = preferred_roots(front);
    let all_dirs = preferred_roots(drives);
    if k < front.len() {
        assert(front[k] == drives[k]);
        law_other_drives_are_searched(front, k, d);
        let i = choose|i: int|
            0 <= i < old_drives.len() && old_drives[i] == (drives[k].mount@, SCAN_DEPTH);
        assert(all_drives[i] == old_drives[i]);
        if 0 <= d < drives[k].program_dirs@.len() {
            let i = choose|i: int|
                0 <= i < old_dirs.len() && old_dirs[i] == (
                    drives[k].program_dirs@[d]@,
                    PREFERRED_SCAN_DEPTH,
                );
            assert(all_dirs[i] == old_dirs[i]);
        }
    } else {
        assert(drives[k] == drives.last());
        assert(all_drives[old_drives.len() as int] == (drives[k].mount@, SCAN_DEPTH));
        if 0 <= d < drives[k].program_dirs@.len() {
            assert(all_dirs[old_dirs.len() + d] == super::scanner::preferred_on(
                drives[k].program_dirs@,
            )[d]);
        }
    }
}

/// A drive is another than the system's exactly if its mount point does not
/// begin with `C:`, in whatever case.
pub proof fn law_system_drive_is_told_by_its_letter(mount: Seq<char>)
    requires
        text::all_ascii(mount),
    ensures
        mount.len() >= 2 && (mount[0] == 'C' || mount[0] == 'c') && mount[1] == ':'
            ==> !is_other_mount(mount),
        mount.len() >= 1 && mount[0] != 'C' && mount[0] != 'c' ==> is_other_mount(mount),
{
    reveal_strlit("C:");
    let upper = text::uppercase(mount);
    if mount.len() >= 2 && (mount[0] == 'C' || mount[0] == 'c') && mount[1] == ':' {
        assert(upper.subrange(0, 2) =~= "C:"@);
    }
    if mount.len() >= 1 && text::has_prefix(upper, "C:"@) {
        assert(upper.subrange(0, 2)[0] == 'C');
        assert(upper[0] == text::ascii_upper(mount[0]));
    }
}

/// Every usual place that there is is searched.
pub proof fn law_usual_places_are_searched(places: UsualPlaces)
    ensures
        places.program_files matches Some(p) ==> usual_roots(places).contains((p@, SCAN_DEPTH)),
        places.program_files_x86 matches Some(p) ==> usual_roots(places).contains((p@, SCAN_DEPTH)),
        places.local_app_data matches Some(p) ==> usual_roots(places).contains((p@, SCAN_DEPTH)),
        places.local_programs matches Some(p) ==> usual_roots(places).contains((p@, SCAN_DEPTH)),
        places.program_data matches Some(p) ==> usual_roots(places).contains((p@, SCAN_DEPTH)),
{
    let a = super::scanner::usual_root(places.program_files);
    let b = super::scanner::usual_root(places.program_files_x86);
    let c = super::scanner::usual_root(places.local_app_data);
    let d = super::scanner::usual_root(places.local_programs);
    let e = super::scanner::usual_root(places.program_data);
    let all = usual_roots(places);
    assert(all == a + b + c + d + e);
    if places.program_files matches Some(p) {
        assert(all[0] == a[0]);
    }
    if places.program_files_x86 matches Some(p) {
        assert(all[a.len() as int] == b[0]);
    }
    if places.local_app_data matches Some(p) {
        assert(all[(a + b).len() as int] == c[0]);
    }
    if places.local_programs matches Some(p) {
        assert(all[(a + b + c).len() as int] == d[0]);
    }
    if places.program_data matches Some(p) {
        assert(all[(a + b + c + d).len() as int] == e[0]);
    }
}

/// The first program among the files stands for an application; there is none
/// exactly if no file is a program.
pub proof fn law_first_program_stands_for_the_application(files: Seq<FileFacts>, from: int)
    requires
        0 <= from <= files.len(),
    ensures
        first_program(files, from) is None <==> forall|i: int|
            from <= i < files.len() ==> !is_program(#[trigger] files[i]),
        forall|i: int|
            from <= i < files.len() && is_program(#[trigger] files[i]) && (forall|j: int|
                from <= j < i ==> !is_program(#[trigger] files[j])) ==> first_program(files, from)
                == Some(files[i].path@),
    decreases files.len() - from,
{
    if from < files.len() {
        law_first_program_stands_for_the_application(files, from + 1);
        if !is_program(files[from]) {
            assert forall|i: int|
                from <= i < files.len() && is_program(#[trigger] files[i]) && (forall|j: int|
                    from <= j < i ==> !is_program(#[trigger] files[j])) implies first_program(
                files,
                from,
            ) == Some(files[i].path@) by {
                assert(i != from);
            }
        } else {
            assert(is_program(files[from]));
            assert forall|i: int|
                from <= i < files.len() && is_program(#[trigger] files[i]) && (forall|j: int|
                    from <= j < i ==> !is_program(#[trigger] files[j])) implies first_program(
                files,
                from,
            ) == Some(files[i].path@) by {
                if i > from {
                    assert(!is_program(files[from]));
                }
            }
        }
    }
}

/// Names go together where one holds the other, in whatever case, and this does
/// not depend on which is which.
pub proof fn law_names_that_go_together(dir: Seq<char>, exe: Seq<char>)
    ensures
        names_go_together(dir, exe) == names_go_together(exe, dir),
        text::lowercase(dir).len() > 0 && text::lowercase(dir) == text::lowercase(exe)
            ==> names_go_together(dir, exe),
        names_go_together(dir, exe) ==> text::contains_text(
            text::lowercase(dir),
            text::lowercase(exe),
        ) || text::contains_text(text::lowercase(exe), text::lowercase(dir)),
        text::lowercase(exe).len() > 0 && text::contains_text(
            text::lowercase(dir),
            text::lowercase(exe),
        ) ==> names_go_together(dir, exe),
{
    let d = text::lowercase(dir);
    let e = text::lowercase(exe);
    if d == e {
        assert(d.subrange(0, d.len() as int) =~= d);
        assert(text::stands_at(d, e, 0));
    }
    if e.len() > 0 && text::contains_text(d, e) {
        let i = choose|i: int| text::stands_at(d, e, i);
        assert(d.len() > 0);
    }
}

/// Another program or a library beside a program shows that it is installed
/// there; the program itself does not.
pub proof fn law_what_shows_an_installation(item: DirItem, exe_path: Seq<char>)
    ensures
        scan_rules::normalized_path(item.path@) == scan_rules::normalized_path(exe_path)
            ==> !is_evidence(item, exe_path),
        !item.is_directory && scan_rules::normalized_path(item.path@)
            != scan_rules::normalized_path(exe_path) && (path::last_extension(item.path@) matches
            Some(e) && (text::lowercase(e) == "dll"@ || text::lowercase(e) == "exe"@))
            ==> is_evidence(item, exe_path),
        !item.is_directory && path::last_extension(item.path@) is None ==> !is_evidence(
            item,
            exe_path,
        ),
{
}

} // verus!
