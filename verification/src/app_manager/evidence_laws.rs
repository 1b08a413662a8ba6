//! What is promised of what an application leaves in the system: that every
//! remain is listed, which services are its, what a snapshot records, and where
//! applications keep their data.

use vstd::prelude::*;

use super::cache::{last_of_place, with_known_icon};
use super::detector::{
    chat_place, first_existing, plain_app_name, ChatPlaces, ProbedPath,
};
use super::registry::{below, hive_name};
use super::residue::{is_entry_of, is_protected_path, is_remain, FoundPath, StrictScanContext};
use super::residue_scan::{
    is_key_of, publisher_key_path, ClassKey, ItemView, PublisherKey, ScanView,
};
use super::survey::{candidates_of, is_candidate, name_match, NameMatchKind};
use super::scan_rules::DirItem;
use super::traces::{is_telling_token, is_trace, runs_from, telling_tokens};
use super::uninstall_search::UninstallEntry;
use super::uninstall_snapshot::{first_names, is_recorded, MAX_ENTRIES_PER_GROUP};
use crate::models::InstalledApp;
use crate::text;
use crate::text::CharSet;

verus! {

/// An item that is added is seen from then on, and what was seen stays seen.
pub proof fn law_added_item_is_seen(scan: ScanView, item: ItemView)
    ensures
        scan.with_item(item).seen.contains(text::lowercase(item.path)),
        forall|s: Seq<char>| #[trigger]
            scan.seen.contains(s) ==> scan.with_item(item).seen.contains(s),
        !scan.seen.contains(text::lowercase(item.path)) ==> scan.with_item(item).items
            == scan.items.push(item),
        scan.seen.contains(text::lowercase(item.path)) ==> scan.with_item(item) == scan,
{
    let after = scan.with_item(item);
    if !scan.seen.contains(text::lowercase(item.path)) {
        assert(after.seen[scan.seen.len() as int] == text::lowercase(item.path));
        assert forall|s: Seq<char>| #[trigger] scan.seen.contains(s) implies after.seen.contains(
            s,
        ) by {
            let i = choose|i: int| 0 <= i < scan.seen.len() && scan.seen[i] == s;
            assert(after.seen[i] == s);
        }
    }
}

/// Every path that is a remain and not protected is listed, as a folder or a
/// file, and offered for deletion.
pub proof fn law_remain_is_listed(scan: ScanView, found: FoundPath, context: StrictScanContext)
    ensures
        is_remain(found.path@, context) && !is_protected_path(found.path@) ==> scan.with_path(
            found,
            context,
        ).seen.contains(text::lowercase(found.path@)),
        is_remain(found.path@, context) && !is_protected_path(found.path@) && !scan.seen.contains(
            text::lowercase(found.path@),
        ) ==> {
            let item = scan.with_path(found, context).items.last();
            &&& scan.with_path(found, context).items.len() == scan.items.len() + 1
            &&& item.path == found.path@
            &&& item.item_type == if found.is_dir {
                "Folder"@
            } else {
                "File"@
            }
            &&& item.size_hundredths == found.size_hundredths
            &&& item.selected
        },
        !is_remain(found.path@, context) || is_protected_path(found.path@) ==> scan.with_path(
            found,
            context,
        ) == scan,
{
    law_added_item_is_seen(
        scan,
        ItemView {
            path: found.path@,
            item_type: if found.is_dir {
                "Folder"@
            } else {
                "File"@
            },
            size_hundredths: found.size_hundredths,
            selected: true,
        },
    );
}

/// Of all the paths that were found none that is a remain and not protected is
/// missing from the list.
pub proof fn law_no_remain_is_missing(
    scan: ScanView,
    found: Seq<FoundPath>,
    context: StrictScanContext,
    i: int,
)
    ensures
        0 <= i < found.len() && is_remain(found[i].path@, context) && !is_protected_path(
            found[i].path@,
        ) ==> scan.with_paths(found, context).seen.contains(text::lowercase(found[i].path@)),
        forall|s: Seq<char>| #[trigger]
            scan.seen.contains(s) ==> scan.with_paths(found, context).seen.contains(s),
    decreases found.len(),
{
    if found.len() > 0 {
        let front = found.drop_last();
        let before = scan.with_paths(front, context);
        law_no_remain_is_missing(scan, front, context, i);
        law_remain_is_listed(before, found.last(), context);
        law_added_item_is_seen(
            before,
            ItemView {
                path: found.last().path@,
                item_type: if found.last().is_dir {
                    "Folder"@
                } else {
                    "File"@
                },
                size_hundredths: found.last().size_hundredths,
                selected: true,
            },
        );
        if 0 <= i < front.len() {
            assert(front[i] == found[i]);
        }
    }
}

/// The entry of the application in the registry is listed, by the name of its
/// hive and its path.
pub proof fn law_no_entry_is_missing(
    scan: ScanView,
    entries: Seq<UninstallEntry>,
    context: StrictScanContext,
    i: int,
)
    ensures
        0 <= i < entries.len() && is_entry_of(entries[i], context) ==> scan.with_entries(
            entries,
            context,
        ).seen.contains(text::lowercase(below(hive_name(entries[i].hive)@, entries[i].path@))),
        forall|s: Seq<char>| #[trigger]
            scan.seen.contains(s) ==> scan.with_entries(entries, context).seen.contains(s),
    decreases entries.len(),
{
    if entries.len() > 0 {
        let front = entries.drop_last();
        let before = scan.with_entries(front, context);
        law_no_entry_is_missing(scan, front, context, i);
        let last = entries.last();
        law_added_item_is_seen(
            before,
            ItemView {
                path: below(hive_name(last.hive)@, last.path@),
                item_type: "Registry"@,
                size_hundredths: 0,
                selected: true,
            },
        );
        if 0 <= i < front.len() {
            assert(front[i] == entries[i]);
        }
    }
}

/// Every key of the publisher's that is the application's is listed.
pub proof fn law_no_publisher_key_is_missing(
    scan: ScanView,
    keys: Seq<PublisherKey>,
    context: StrictScanContext,
    i: int,
)
    ensures
        0 <= i < keys.len() && is_key_of(keys[i], context) ==> scan.with_publisher_keys(
            keys,
            context,
        ).seen.contains(
            text::lowercase(
                below(hive_name(keys[i].hive)@, publisher_key_path(keys[i], context)),
            ),
        ),
        forall|s: Seq<char>| #[trigger]
            scan.seen.contains(s) ==> scan.with_publisher_keys(keys, context).seen.contains(s),
    decreases keys.len(),
{
    if keys.len() > 0 {
        let front = keys.drop_last();
        let before = scan.with_publisher_keys(front, context);
        law_no_publisher_key_is_missing(scan, front, context, i);
        let last = keys.last();
        law_added_item_is_seen(
            before,
            ItemView {
                path: below(hive_name(last.hive)@, publisher_key_path(last, context)),
                item_type: "Registry"@,
                size_hundredths: 0,
                selected: true,
            },
        );
        if 0 <= i < front.len() {
            assert(front[i] == keys[i]);
        }
    }
}

/// Every file association whose name holds that of the application's folder is
/// listed.
pub proof fn law_no_association_is_missing(
    scan: ScanView,
    keys: Seq<ClassKey>,
    context: StrictScanContext,
    i: int,
)
    ensures
        0 <= i < keys.len() && text::contains_text(
            text::lowercase(keys[i].name@),
            context.app_folder_name@,
        ) ==> scan.with_class_keys(keys, context).seen.contains(
            text::lowercase(
                below(hive_name(keys[i].hive)@, below(keys[i].root_path@, keys[i].name@)),
            ),
        ),
        forall|s: Seq<char>| #[trigger]
            scan.seen.contains(s) ==> scan.with_class_keys(keys, context).seen.contains(s),
    decreases keys.len(),
{
    if keys.len() > 0 {
        let front = keys.drop_last();
        let before = scan.with_class_keys(front, context);
        law_no_association_is_missing(scan, front, context, i);
        let last = keys.last();
        law_added_item_is_seen(
            before,
            ItemView {
                path: below(hive_name(last.hive)@, below(last.root_path@, last.name@)),
                item_type: "Registry"@,
                size_hundredths: 0,
                selected: true,
            },
        );
        if 0 <= i < front.len() {
            assert(front[i] == keys[i]);
        }
    }
}

/// A program runs from a place if it is the place or stands below it; what
/// merely begins like it does not, and from no place nothing runs.
pub proof fn law_what_runs_from_a_place(place: Seq<char>, rest: Seq<char>)
    requires
        place.len() > 0,
        place.last() != '\\',
        text::lowercase(place).len() > 0,
    ensures
        runs_from(text::lowercase(place), place),
        runs_from(text::lowercase(place) + "\\"@ + rest, place),
        rest.len() > 0 && rest[0] != '\\' ==> !runs_from(text::lowercase(place) + rest, place),
        !runs_from(rest, seq![]),
{
    reveal_strlit("\\");
    let low = text::lowercase(place);
    assert(text::trimmed_end(place, CharSet::One('\\')) == place);
    let path = low + "\\"@ + rest;
    assert(path.subrange(0, (low + "\\"@).len() as int) =~= low + "\\"@);
    if rest.len() > 0 && rest[0] != '\\' {
        let other = low + rest;
        if text::has_prefix(other, low + "\\"@) {
            assert(other.subrange(0, low.len() as int + 1)[low.len() as int] == other[low.len() as int]);
            assert((low + "\\"@)[low.len() as int] == '\\');
        }
        assert(other.len() > low.len());
    }
    let none = text::trimmed_end(Seq::<char>::empty(), CharSet::One('\\'));
    assert(none =~= Seq::<char>::empty());
    assert(text::lowercase(none).len() == 0);
}

/// A service is the application's where its program runs from the application's
/// place, and where one of its names holds a token; else it is not.
pub proof fn law_services_of_the_application(
    name: Seq<char>,
    display_name: Seq<char>,
    image: Option<Seq<char>>,
    tokens: Seq<String>,
    location: Option<Seq<char>>,
    system_root: Seq<char>,
)
    ensures
        image is Some && location is Some && runs_from(
            super::traces::image_of(image->0, system_root),
            location->0,
        ) ==> is_trace(name, display_name, image, tokens, location, system_root),
        forall|i: int|
            0 <= i < tokens.len() && (text::contains_text(
                text::lowercase(name),
                (#[trigger] tokens[i])@,
            ) || text::contains_text(text::lowercase(display_name), tokens[i]@)) ==> is_trace(
                name,
                display_name,
                image,
                tokens,
                location,
                system_root,
            ),
        tokens.len() == 0 && (image is None || location is None) ==> !is_trace(
            name,
            display_name,
            image,
            tokens,
            location,
            system_root,
        ),
{
    let a = text::lowercase(name);
    let b = text::lowercase(display_name);
    let both = a + " "@ + b;
    assert forall|i: int|
        0 <= i < tokens.len() && (text::contains_text(a, (#[trigger] tokens[i])@)
            || text::contains_text(b, tokens[i]@)) implies is_trace(
        name,
        display_name,
        image,
        tokens,
        location,
        system_root,
    ) by {
        let t = tokens[i]@;
        if text::contains_text(a, t) {
            let k = choose|k: int| text::stands_at(a, t, k);
            assert(both.subrange(k, k + t.len()) =~= a.subrange(k, k + t.len()));
            assert(text::stands_at(both, t, k));
        } else {
            let k = choose|k: int| text::stands_at(b, t, k);
            let o = (a + " "@).len() as int;
            assert(both.subrange(o + k, o + k + t.len()) =~= b.subrange(k, k + t.len()));
            assert(text::stands_at(both, t, o + k));
        }
        assert(super::traces::holds_token(both, tokens));
    }
}

/// The tokens of an application are the runs of letters and digits of its name
/// that tell it from others, in lower case.
pub proof fn law_tokens_of_an_application(parts: Seq<Seq<char>>, token: Seq<char>)
    ensures
        telling_tokens(parts).contains(token) <==> is_telling_token(token) && exists|i: int|
            0 <= i < parts.len() && text::lowercase(#[trigger] parts[i]) == token,
    decreases parts.len(),
{
    if parts.len() > 0 {
        let front = parts.drop_last();
        law_tokens_of_an_application(front, token);
        let before = telling_tokens(front);
        let all = telling_tokens(parts);
        assert(parts[parts.len() - 1] == parts.last());
        if exists|i: int| 0 <= i < parts.len() && text::lowercase(#[trigger] parts[i]) == token {
            let i = choose|i: int|
                0 <= i < parts.len() && text::lowercase(#[trigger] parts[i]) == token;
            if i < front.len() {
                assert(text::lowercase(front[i]) == token);
            }
        }
        if exists|i: int| 0 <= i < front.len() && text::lowercase(#[trigger] front[i]) == token {
            let i = choose|i: int|
                0 <= i < front.len() && text::lowercase(#[trigger] front[i]) == token;
            assert(text::lowercase(parts[i]) == token);
        }
        if all.len() > before.len() {
            assert(all[all.len() - 1] == text::lowercase(parts.last()));
            if before.contains(token) {
                let i = choose|i: int| 0 <= i < before.len() && before[i] == token;
                assert(all[i] == token);
            }
            if all.contains(token) {
                let i = choose|i: int| 0 <= i < all.len() && all[i] == token;
                if i < before.len() {
                    assert(before[i] == token);
                }
            }
        }
    }
}

/// As long as there are no more names than are recorded, every lasting name is;
/// and nothing else ever is.
pub proof fn law_lasting_names_are_recorded(found: Seq<String>, all: bool, name: Seq<char>)
    ensures
        first_names(found, all).len() <= found.len(),
        first_names(found, all).contains(name) ==> (all || is_recorded(name)) && exists|i: int|
            0 <= i < found.len() && (#[trigger] found[i])@ == name,
        found.len() <= MAX_ENTRIES_PER_GROUP && (all || is_recorded(name)) && (exists|i: int|
            0 <= i < found.len() && (#[trigger] found[i])@ == name) ==> first_names(
            found,
            all,
        ).contains(name),
    decreases found.len(),
{
    if found.len() > 0 {
        let front = found.drop_last();
        law_lasting_names_are_recorded(front, all, name);
        let before = first_names(front, all);
        let names = first_names(found, all);
        assert(found[found.len() - 1] == found.last());
        if exists|i: int| 0 <= i < front.len() && (#[trigger] front[i])@ == name {
            let i = choose|i: int| 0 <= i < front.len() && (#[trigger] front[i])@ == name;
            assert(found[i]@ == name);
        }
        if exists|i: int| 0 <= i < found.len() && (#[trigger] found[i])@ == name {
            let i = choose|i: int| 0 <= i < found.len() && (#[trigger] found[i])@ == name;
            if i < front.len() {
                assert(front[i]@ == name);
            }
        }
        if names.len() > before.len() {
            assert(names[names.len() - 1] == found.last()@);
            if before.contains(name) {
                let i = choose|i: int| 0 <= i < before.len() && before[i] == name;
                assert(names[i] == name);
            }
            if names.contains(name) {
                let i = choose|i: int| 0 <= i < names.len() && names[i] == name;
                if i < before.len() {
                    assert(before[i] == name);
                }
            }
        }
    }
}

/// An icon of its own is kept; without one an application gets that which the
/// latest entry of the same place has, if it has one.
pub proof fn law_icons_are_kept(app: InstalledApp, known: Seq<InstalledApp>)
    ensures
        app.icon_base64@.len() > 0 ==> with_known_icon(app, known) == app,
        with_known_icon(app, known).display_name == app.display_name,
        with_known_icon(app, known).install_location == app.install_location,
        with_known_icon(app, known).registry_path == app.registry_path,
        app.icon_base64@.len() == 0 ==> (last_of_place(known, app) matches Some(old) ==> (
        old.icon_base64@.len() > 0 ==> with_known_icon(app, known).icon_base64
            == old.icon_base64)),
        known.len() > 0 && known.last().install_location@ == app.install_location@
            && known.last().display_icon@ == app.display_icon@ ==> last_of_place(known, app)
            == Some(known.last()),
        (forall|i: int|
            0 <= i < known.len() ==> (#[trigger] known[i]).install_location@
                != app.install_location@) ==> last_of_place(known, app) is None,
    decreases known.len(),
{
    if known.len() > 0 {
        law_icons_are_kept(app, known.drop_last());
        if forall|i: int|
            0 <= i < known.len() ==> (#[trigger] known[i]).install_location@
                != app.install_location@ {
            assert(known[known.len() - 1] == known.last());
            assert forall|i: int| 0 <= i < known.drop_last().len() implies (
            #[trigger] known.drop_last()[i]).install_location@ != app.install_location@ by {
                assert(known.drop_last()[i] == known[i]);
            }
        }
    }
}

/// An icon is taken only from an entry with the same place and the same icon
/// path, the latest of those; its address is taken with it.
pub proof fn law_known_icon_is_of_the_same_place(
    app: InstalledApp,
    known: Seq<InstalledApp>,
    old_app: InstalledApp,
)
    requires
        last_of_place(known, app) == Some(old_app),
    ensures
        known.contains(old_app),
        old_app.install_location@ == app.install_location@,
        old_app.display_icon@ == app.display_icon@,
        app.icon_base64@.len() == 0 && old_app.icon_url@.len() > 0 ==> with_known_icon(
            app,
            known,
        ).icon_url == old_app.icon_url,
        app.icon_base64@.len() == 0 && old_app.icon_url@.len() == 0 ==> with_known_icon(
            app,
            known,
        ).icon_url == app.icon_url,
    decreases known.len(),
{
    if known.last().install_location@ == app.install_location@ && known.last().display_icon@
        == app.display_icon@ {
        assert(known[known.len() - 1] == old_app);
    } else {
        law_known_icon_is_of_the_same_place(app, known.drop_last(), old_app);
        let i = choose|i: int| 0 <= i < known.drop_last().len() && known.drop_last()[i] == old_app;
        assert(known[i] == old_app);
    }
}

/// Of several places the first that is a directory is taken; there is none
/// exactly if none is.
pub proof fn law_first_directory_is_taken(places: Seq<ProbedPath>, from: int)
    requires
        0 <= from <= places.len(),
    ensures
        forall|i: int|
            from <= i < places.len() && (#[trigger] places[i]).exists && places[i].is_dir && (
            forall|j: int|
                from <= j < i ==> !((#[trigger] places[j]).exists && places[j].is_dir))
                ==> first_existing(places, from) == Some(places[i].path@),
        first_existing(places, from) is None <==> forall|i: int|
            from <= i < places.len() ==> !((#[trigger] places[i]).exists && places[i].is_dir),
    decreases places.len() - from,
{
    if from < places.len() {
        law_first_directory_is_taken(places, from + 1);
        let here = places[from].exists && places[from].is_dir;
        assert forall|i: int|
            from <= i < places.len() && (#[trigger] places[i]).exists && places[i].is_dir && (
            forall|j: int|
                from <= j < i ==> !((#[trigger] places[j]).exists && places[j].is_dir)) implies
            first_existing(places, from) == Some(places[i].path@) by {
            if i > from {
                assert(!(places[from].exists && places[from].is_dir));
            }
        }
        if here {
            assert(places[from].exists);
        }
    }
}

/// WeChat's data are where its setting says, those of Feishu at the first of its
/// places that is a directory; the name's case and blanks around it do not
/// count.
pub proof fn law_where_data_are_kept(name: Seq<char>, places: ChatPlaces)
    ensures
        plain_app_name(name) == "wechat"@ && places.wechat is Some && (places.wechat->0).exists && (
        places.wechat->0).is_dir ==> chat_place(name, places) == Some((places.wechat->0).path@),
        plain_app_name(name) == "wechat"@ && places.wechat is None ==> chat_place(name, places)
            is None,
        plain_app_name(name) == "qq"@ && places.tencent_files is Some && (
        places.tencent_files->0).exists ==> chat_place(name, places) == Some(
            (places.tencent_files->0).path@,
        ),
        plain_app_name(name) == "feishu"@ ==> chat_place(name, places) == first_existing(
            places.feishu@,
            0,
        ),
{
    reveal_strlit("wechat");
    reveal_strlit("qq");
    reveal_strlit("tim");
    reveal_strlit("feishu");
    reveal_strlit("lark");
    if plain_app_name(name) == "qq"@ {
        assert("qq"@.len() == 2 && "wechat"@.len() == 6);
    }
    if plain_app_name(name) == "feishu"@ {
        assert("feishu"@[0] == 'f' && "wechat"@[0] == 'w');
        assert("feishu"@.len() == 6 && "qq"@.len() == 2 && "tim"@.len() == 3);
    }
}

/// Every executable that may be an application is a candidate, and nothing else
/// is.
pub proof fn law_candidates_of_a_directory(
    items: Seq<DirItem>,
    candidate: (Seq<char>, Seq<char>),
)
    ensures
        candidates_of(items).contains(candidate) <==> exists|i: int|
            0 <= i < items.len() && is_candidate(#[trigger] items[i]) && candidate == (
                items[i].path@,
                super::survey::exe_name_of(items[i]),
            ),
    decreases items.len(),
{
    if items.len() > 0 {
        let front = items.drop_last();
        law_candidates_of_a_directory(front, candidate);
        let before = candidates_of(front);
        let all = candidates_of(items);
        assert(items[items.len() - 1] == items.last());
        if exists|i: int|
            0 <= i < items.len() && is_candidate(#[trigger] items[i]) && candidate == (
                items[i].path@,
                super::survey::exe_name_of(items[i]),
            ) {
            let i = choose|i: int|
                0 <= i < items.len() && is_candidate(#[trigger] items[i]) && candidate == (
                    items[i].path@,
                    super::survey::exe_name_of(items[i]),
                );
            if i < front.len() {
                assert(is_candidate(front[i]));
            }
        }
        if before.contains(candidate) {
            let i = choose|i: int|
                0 <= i < front.len() && is_candidate(#[trigger] front[i]) && candidate == (
                    front[i].path@,
                    super::survey::exe_name_of(front[i]),
                );
            assert(is_candidate(items[i]));
            let k = choose|k: int| 0 <= k < before.len() && before[k] == candidate;
            assert(all[k] == candidate);
        }
        if all.len() > before.len() {
            assert(all[all.len() - 1] == (
                items.last().path@,
                super::survey::exe_name_of(items.last()),
            ));
            if all.contains(candidate) {
                let i = choose|i: int| 0 <= i < all.len() && all[i] == candidate;
                if i < before.len() {
                    assert(before[i] == candidate);
                }
            }
        }
    }
}

/// A program's name matches that of its directory exactly where they are the
/// same, whatever the program's case; it matches in part where one holds the
/// other.
pub proof fn law_how_names_match(exe: Seq<char>, dir: Seq<char>)
    ensures
        text::lowercase(exe) == dir <==> name_match(exe, dir) == NameMatchKind::Exact,
        text::lowercase(exe) != dir && text::lowercase(exe).len() > 0 && text::contains_text(
            dir,
            text::lowercase(exe),
        ) ==> name_match(exe, dir) == NameMatchKind::Contains,
        !text::contains_text(dir, text::lowercase(exe)) && !text::contains_text(
            text::lowercase(exe),
            dir,
        ) ==> name_match(exe, dir) == NameMatchKind::Unrelated,
{
    let e = text::lowercase(exe);
    assert(dir.subrange(0, dir.len() as int) =~= dir);
    assert(text::stands_at(dir, dir, 0));
    if e.len() > 0 && text::contains_text(dir, e) {
        let k = choose|k: int| text::stands_at(dir, e, k);
        assert(dir.len() > 0);
    }
}

} // verus!
