//! What the list of applications promises: that nothing is lost on the way to
//! it, in which order it stands, and when two places are the same.

use vstd::prelude::*;

use super::cache::AppCache;
use super::lnk::{path_offset, shortcut_class, u16_at, u32_at};
use super::scan_laws::law_only_parts_of_others_are_dropped;
use super::scan_rules::normalized_path;
use super::scanner::{by_name, icon_file, is_deduped, new_apps, place};
use super::snapshot::{are_with_icon_urls, is_with_icon_url};
use super::streaming::{
    has_icon, icon_source, is_final_list, is_found_list, is_on_system_disk, is_refreshed_list,
    is_scanned_list, is_unregistered, knows_also, ScanEvent, ScanProgressEvent,
    StreamScan,
};
use crate::list;
use crate::list::holds_text;
use crate::migration::copy_laws::lemma_first_piece;
use crate::models::InstalledApp;
use crate::text;
use crate::text::CharSet;

verus! {

/// A sorted list holds the same applications, by their names in lower case.
pub proof fn law_list_is_sorted_by_name(apps: Seq<InstalledApp>, r: Seq<InstalledApp>)
    requires
        list::is_sorted_by(apps, r, by_name()),
    ensures
        r.len() == apps.len(),
        forall|i: int, j: int|
            0 <= i < j < r.len() ==> !text::text_before(
                text::lowercase((#[trigger] r[j]).display_name@),
                text::lowercase((#[trigger] r[i]).display_name@),
            ),
        forall|app: InstalledApp| #[trigger] r.contains(app) <==> apps.contains(app),
{
    let p = choose|p: Seq<int>| list::is_arranged_by(apps, r, by_name(), p);
    assert forall|i: int, j: int| 0 <= i < j < r.len() implies !text::text_before(
        text::lowercase((#[trigger] r[j]).display_name@),
        text::lowercase((#[trigger] r[i]).display_name@),
    ) by {
        assert(by_name()(r[j]) == text::lowercase(r[j].display_name@));
        assert(by_name()(r[i]) == text::lowercase(r[i].display_name@));
    }
    assert forall|app: InstalledApp| #[trigger] r.contains(app) <==> apps.contains(app) by {
        if r.contains(app) {
            let i = choose|i: int| 0 <= i < r.len() && r[i] == app;
            assert(apps[p[i]] == app);
        }
        if apps.contains(app) {
            let j = choose|j: int| 0 <= j < apps.len() && apps[j] == app;
            list::lemma_every_position_occurs(p, apps.len() as int, j);
            let i = choose|i: int| 0 <= i < p.len() && #[trigger] p[i] == j;
            assert(r[i] == app);
        }
    }
}

/// Whether an application stands below another of a list.
pub open spec fn is_part_of_another(apps: Seq<InstalledApp>, app: InstalledApp) -> bool {
    exists|j: int, rest: Seq<char>|
        0 <= j < apps.len() && place(app) == #[trigger] (place(#[trigger] apps[j]) + seq!['\\']
            + rest)
}

/// Of what was found exactly that is listed which stands below nothing else that
/// was found.
pub proof fn law_found_applications_are_listed(
    apps: Seq<InstalledApp>,
    r: Seq<InstalledApp>,
    app: InstalledApp,
)
    requires
        is_found_list(apps, r),
        apps.contains(app),
    ensures
        r.contains(app) <==> !is_part_of_another(apps, app),
{
    let outer = choose|outer: Seq<InstalledApp>| #[trigger]
        is_deduped(apps, outer) && list::is_sorted_by(outer, r, by_name());
    law_only_parts_of_others_are_dropped(apps, outer, app);
    law_list_is_sorted_by_name(outer, r);
}

/// Of a scan without reports nothing that the registry and shortcuts name is
/// lost but what stands below something else, and with very many applications
/// not even that.
pub proof fn law_scanned_applications_are_listed(
    known: Seq<InstalledApp>,
    filesystem: Seq<InstalledApp>,
    r: Seq<InstalledApp>,
    app: InstalledApp,
)
    requires
        is_scanned_list(known, filesystem, r),
    ensures
        known.len() >= 1000 && known.contains(app) ==> r.contains(app),
        known.len() < 1000 && (known + filesystem).contains(app) ==> (r.contains(app)
            <==> !is_part_of_another(known + filesystem, app)),
{
    if known.len() >= 1000 {
        law_list_is_sorted_by_name(known, r);
    } else {
        let apps = known + filesystem;
        let outer = choose|outer: Seq<InstalledApp>| #[trigger]
            is_deduped(apps, outer) && list::is_sorted_by(outer, r, by_name());
        if apps.contains(app) {
            law_only_parts_of_others_are_dropped(apps, outer, app);
        }
        law_list_is_sorted_by_name(outer, r);
    }
}

/// When the registry is read again, what it names now is listed, unless it
/// stands below something else; and what was found elsewhere before stays known.
pub proof fn law_refreshed_applications_are_listed(
    registry: Seq<InstalledApp>,
    cached: Seq<InstalledApp>,
    r: Seq<InstalledApp>,
)
    requires
        is_refreshed_list(registry, cached, r),
    ensures
        exists|all: Seq<InstalledApp>, known: Seq<String>|
            #![trigger registry + all, knows_also(seq![], known, registry)]
            knows_also(seq![], known, registry) && all == new_apps(
                cached.filter(is_unregistered()),
                known,
            ) && forall|app: InstalledApp|
                registry.contains(app) ==> (#[trigger] r.contains(app) <==> !is_part_of_another(
                    registry + all,
                    app,
                )),
{
    let (known, outer) = choose|known: Seq<String>, outer: Seq<InstalledApp>|
        #![trigger knows_also(seq![], known, registry), list::is_sorted_by(outer, r, by_name())]
        knows_also(seq![], known, registry) && is_deduped(
            registry + new_apps(cached.filter(is_unregistered()), known),
            outer,
        ) && list::is_sorted_by(outer, r, by_name());
    let all = new_apps(cached.filter(is_unregistered()), known);
    let whole = registry + all;
    law_list_is_sorted_by_name(outer, r);
    assert forall|app: InstalledApp| registry.contains(app) implies (#[trigger] r.contains(app)
        <==> !is_part_of_another(whole, app)) by {
        let i = choose|i: int| 0 <= i < registry.len() && registry[i] == app;
        assert(whole[i] == app);
        law_only_parts_of_others_are_dropped(whole, outer, app);
    }
    assert(knows_also(seq![], known, registry));
}

/// The list that a scan ends with holds every application that was found and
/// every one that is known to have been moved, under its name and at its place.
pub proof fn law_final_list_is_whole(
    apps: Seq<InstalledApp>,
    moved: Seq<InstalledApp>,
    r: Seq<InstalledApp>,
    app: InstalledApp,
)
    requires
        is_final_list(apps, moved, r),
        apps.contains(app) || moved.contains(app),
    ensures
        r.len() == apps.len() + moved.len(),
        exists|k: int|
            0 <= k < r.len() && (#[trigger] r[k]).display_name == app.display_name
                && r[k].install_location == app.install_location && r[k].registry_path
                == app.registry_path,
{
    let all = apps + moved;
    let sorted = choose|sorted: Seq<InstalledApp>| #[trigger]
        list::is_sorted_by(all, sorted, by_name()) && are_with_icon_urls(sorted, r);
    law_list_is_sorted_by_name(all, sorted);
    if apps.contains(app) {
        let i = choose|i: int| 0 <= i < apps.len() && apps[i] == app;
        assert(all[i] == app);
    } else {
        let i = choose|i: int| 0 <= i < moved.len() && moved[i] == app;
        assert(all[apps.len() + i] == app);
    }
    assert(sorted.contains(app));
    let k = choose|k: int| 0 <= k < sorted.len() && sorted[k] == app;
    assert(is_with_icon_url(sorted[k], r[k]));
    assert(r[k].display_name == app.display_name);
}

/// What a scan reads is kept: what the registry names, and behind it what the
/// shortcuts lead to, is reported as it is read.
pub proof fn law_scan_keeps_what_it_reads(
    scan: StreamScan,
    next: StreamScan,
    report: Option<ScanProgressEvent>,
    cached: AppCache,
    now_cached: AppCache,
    apps: Vec<InstalledApp>,
)
    ensures
        scan.stage is ReadRegistry && scan.becomes(
            ScanEvent::RegistryRead { apps },
            next,
            report,
            cached,
            now_cached,
        ) ==> next.apps@ == apps@ && (report matches Some(e) && e.apps@ == apps@ && !e.is_final)
            && now_cached == cached,
        scan.stage is ReadShortcuts && scan.becomes(
            ScanEvent::ShortcutsRead { apps },
            next,
            report,
            cached,
            now_cached,
        ) ==> next.apps@ == scan.apps@ + apps@ && (report matches Some(e) && e.apps@ == apps@
            && !e.is_final) && now_cached == cached,
        scan.stage is SearchFilesystem && scan.becomes(
            ScanEvent::FilesystemSearched { apps },
            next,
            report,
            cached,
            now_cached,
        ) ==> is_found_list(scan.apps@ + apps@, next.apps@) && (report matches Some(e) && e.apps@
            == apps@ && !e.is_final),
        scan.stage is FindMoved && scan.becomes(
            ScanEvent::MovedFound { apps },
            next,
            report,
            cached,
            now_cached,
        ) ==> is_final_list(scan.apps@, apps@, next.apps@),
{
}

/// The list in memory is replaced by nothing but the end of a scan, and then it
/// is the scan's list.
pub proof fn law_only_a_whole_scan_is_remembered(
    scan: StreamScan,
    event: ScanEvent,
    next: StreamScan,
    report: Option<ScanProgressEvent>,
    cached: AppCache,
    now_cached: AppCache,
)
    requires
        scan.becomes(event, next, report, cached, now_cached),
    ensures
        now_cached != cached ==> scan.stage is ReadClock && next.stage is Finished
            && now_cached.apps@ == scan.apps@ && !now_cached.is_dirty,
        next.stage is Finished && !(scan.stage is Finished) ==> now_cached.apps@ == next.apps@ && (
        report matches Some(e) && e.is_final),
        report matches Some(e) && e.is_final ==> next.stage is Finished,
{
}

/// An icon of its own is taken for an application; only without one that of a
/// program in its directory.
pub proof fn law_where_icons_come_from(app: InstalledApp, fallback: Option<String>)
    ensures
        app.display_icon@.len() > 0 ==> icon_source(app, fallback) == app.display_icon@,
        app.display_icon@.len() == 0 && fallback is Some ==> icon_source(app, fallback)
            == fallback->0@,
        app.display_icon@.len() == 0 && fallback is None ==> !has_icon(app, fallback),
        text::trimmed(app.display_icon@, CharSet::Whitespace).len() > 0
            && app.display_icon@.len() > 0 ==> has_icon(app, fallback),
{
    reveal_strlit("http://viap-icon.localhost/");
}

/// The file that an icon entry names stands before its comma, in quotes or not.
pub proof fn law_file_of_an_icon_entry(file: Seq<char>, behind: Seq<char>)
    requires
        file.len() > 0,
        !text::is_whitespace_char(file[0]) && file[0] != '"',
        !text::is_whitespace_char(file.last()) && file.last() != '"',
        forall|i: int| 0 <= i < file.len() ==> #[trigger] file[i] != ',',
    ensures
        icon_file(file + seq![','] + behind) == file,
        icon_file(file) == file,
{
    lemma_first_piece(file, ',', behind);
    super::residue_laws::lemma_one_piece(file, CharSet::One(','));
    assert(text::trimmed(file, CharSet::Whitespace) == file);
    assert(text::trimmed(file, CharSet::One('"')) == file);
}

/// Quotes around a path and separators at its end make no other place of it,
/// and neither does, of ASCII characters, its case.
pub proof fn law_when_places_are_the_same(path: Seq<char>, other: Seq<char>)
    requires
        path.len() > 0,
        !text::is_whitespace_char(path[0]) && path[0] != '"',
        !text::is_whitespace_char(path.last()) && path.last() != '"' && path.last() != '\\'
            && path.last() != '/',
    ensures
        normalized_path(path) == text::lowercase(path),
        normalized_path(path.push('\\')) == normalized_path(path),
        normalized_path(path.push('/')) == normalized_path(path),
        normalized_path(seq!['"'] + path + seq!['"']) == normalized_path(path),
        text::all_ascii(path) && text::all_ascii(other) && text::ascii_lowercase(path)
            == text::ascii_lowercase(other) ==> normalized_path(other) == normalized_path(path),
{
    let blanks = CharSet::Whitespace;
    let quotes = CharSet::One('"');
    let ends = CharSet::Two('\\', '/');
    assert(text::trimmed(path, blanks) == path);
    assert(text::trimmed(path, quotes) == path);
    assert(text::trimmed_end(path, ends) == path);
    let a = path.push('\\');
    assert(a[0] == path[0] && a.last() == '\\');
    assert(text::trimmed(a, blanks) == a);
    assert(text::trimmed(a, quotes) == a);
    assert(a.drop_last() =~= path);
    assert(text::trimmed_end(a, ends) == text::trimmed_end(path, ends));
    let b = path.push('/');
    assert(b[0] == path[0] && b.last() == '/');
    assert(text::trimmed(b, blanks) == b);
    assert(text::trimmed(b, quotes) == b);
    assert(b.drop_last() =~= path);
    assert(text::trimmed_end(b, ends) == text::trimmed_end(path, ends));
    let c = seq!['"'] + path + seq!['"'];
    assert(c[0] == '"' && c.last() == '"');
    assert(text::trimmed(c, blanks) == c);
    assert(c.drop_first() =~= path.push('"'));
    assert(path.push('"')[0] == path[0]);
    assert(text::trimmed_start(c, quotes) == text::trimmed_start(path.push('"'), quotes));
    assert(text::trimmed_start(path.push('"'), quotes) == path.push('"'));
    assert(path.push('"').drop_last() =~= path);
    assert(text::trimmed_end(path.push('"'), quotes) == text::trimmed_end(path, quotes));
    if text::all_ascii(path) && text::all_ascii(other) && text::ascii_lowercase(path)
        == text::ascii_lowercase(other) {
        assert(text::ascii_lowercase(path).len() == path.len());
        assert(text::ascii_lowercase(other).len() == other.len());
        lemma_same_but_for_case(path, other, 0);
        lemma_same_but_for_case(path, other, path.len() - 1);
        assert(text::trimmed(other, blanks) == other);
        assert(text::trimmed(other, quotes) == other);
        assert(text::trimmed_end(other, ends) == other);
    }
}

proof fn lemma_same_but_for_case(s: Seq<char>, t: Seq<char>, i: int)
    requires
        s.len() == t.len(),
        0 <= i < s.len(),
        text::ascii_lowercase(s) == text::ascii_lowercase(t),
        !text::is_whitespace_char(s[i]),
    ensures
        !text::is_whitespace_char(t[i]),
        s[i] != '"' ==> t[i] != '"',
        s[i] != '\\' ==> t[i] != '\\',
        s[i] != '/' ==> t[i] != '/',
{
    assert(text::ascii_lowercase(s)[i] == text::ascii_lower(s[i]));
    assert(text::ascii_lowercase(t)[i] == text::ascii_lower(t[i]));
}

/// An application is on the system disk exactly if its place begins with `C:`,
/// in whatever case.
pub proof fn law_system_disk_is_told_by_its_letter(app: InstalledApp)
    requires
        text::all_ascii(app.install_location@),
        app.install_location@.len() >= 2,
    ensures
        is_on_system_disk(app) <==> (app.install_location@[0] == 'C' || app.install_location@[0]
            == 'c') && app.install_location@[1] == ':',
{
    reveal_strlit("C:");
    let s = app.install_location@;
    let upper = text::uppercase(s);
    assert(upper[0] == text::ascii_upper(s[0]) && upper[1] == text::ascii_upper(s[1]));
    if (s[0] == 'C' || s[0] == 'c') && s[1] == ':' {
        assert(upper.subrange(0, 2) =~= "C:"@);
    }
    if text::has_prefix(upper, "C:"@) {
        assert(upper.subrange(0, 2)[0] == 'C');
        assert(upper.subrange(0, 2)[1] == ':');
    }
}

/// The target of a shortcut stands where its link information says: behind the
/// header, or behind the list of identifiers where there is one.
pub proof fn law_where_a_target_stands(data: Seq<u8>, at: int)
    requires
        data.len() >= 76,
        data.take(16) == shortcut_class(),
        (data[0x14] / 2) % 2 == 1,
        data[0x14] % 2 == 0 ==> at == 76,
        data[0x14] % 2 == 1 ==> data.len() >= 78 && at == 76 + u16_at(data, 76),
        at + 20 <= data.len(),
        u32_at(data, at) >= 16,
        at + u32_at(data, at) <= data.len(),
        data[at + 8] % 2 == 1,
        at + u32_at(data, at + 16) < data.len(),
    ensures
        path_offset(data) == Some(at + u32_at(data, at + 16)),
{
}

/// What is no shortcut, or leads to no local path, has no target.
pub proof fn law_what_has_no_target(data: Seq<u8>)
    ensures
        data.len() < 76 ==> path_offset(data) is None,
        data.len() >= 76 && data.take(16) != shortcut_class() ==> path_offset(data) is None,
        data.len() >= 76 && (data[0x14] / 2) % 2 == 0 ==> path_offset(data) is None,
{
}

/// Where a link leads counts as known from then on, and what was known stays
/// known.
pub proof fn law_targets_of_links_are_known(
    scan: StreamScan,
    next: StreamScan,
    report: Option<ScanProgressEvent>,
    cached: AppCache,
    now_cached: AppCache,
    targets: Vec<String>,
    i: int,
)
    requires
        scan.stage is FollowLinks,
        scan.becomes(ScanEvent::LinksFollowed { targets }, next, report, cached, now_cached),
    ensures
        0 <= i < targets@.len() ==> holds_text(next.known@, normalized_path(targets@[i]@)),
        0 <= i < scan.known@.len() ==> holds_text(next.known@, scan.known@[i]@),
        next.apps == scan.apps,
{
    if 0 <= i < targets@.len() {
        assert(next.known@[scan.known@.len() + i]@ == normalized_path(targets@[i]@));
    }
    if 0 <= i < scan.known@.len() {
        assert(next.known@.take(scan.known@.len() as int)[i] == scan.known@[i]);
        assert(next.known@[i]@ == scan.known@[i]@);
    }
}

/// Each batch of icons brings the scan on, and the scan goes on to its end once
/// all applications have been asked for theirs; no application is lost on the
/// way.
pub proof fn law_every_batch_of_icons_brings_the_scan_on(
    scan: StreamScan,
    next: StreamScan,
    report: Option<ScanProgressEvent>,
    cached: AppCache,
    now_cached: AppCache,
    executables: Vec<Option<String>>,
)
    requires
        scan.well_formed(),
        scan.stage is ReadIcons,
        scan.becomes(ScanEvent::IconsRead { executables }, next, report, cached, now_cached),
    ensures
        scan.icons < next.icons <= scan.apps@.len(),
        next.apps == scan.apps,
        next.icons == scan.apps@.len() <==> next.stage is ReadClock,
        report matches Some(e) ==> !e.is_final && e.total_count == scan.apps@.len(),
{
}

} // verus!
