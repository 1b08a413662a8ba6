//! Finding installed applications: in the registry, behind shortcuts and in
//! directories.

#![verifier::loop_isolation(false)]

use vstd::prelude::*;

use super::scan_rules::{
    has_version_pattern_in_stem, is_container_directory, is_installer_like_exe, is_skippable_dir,
    is_system_component, is_system_path, normalize_path, normalized_path,
};
use super::scan_rules;
use crate::list;
use crate::list::{has_text, holds_text, Keyed, Queue};
use crate::models::InstalledApp;
use crate::path;
use crate::text;
use crate::text::CharSet;

verus! {

/// For how many seconds a registry scan stays current.
pub const REGISTRY_CACHE_TTL_SECS: u64 = 30;

/// With this many applications the file system is not searched any more.
pub const EARLY_EXIT_APP_COUNT: usize = 1000;

/// For how many seconds after its start a system counts as cold.
pub const COLD_START_SECS: u64 = 60;

/// The key by which two places are found to be the same.
pub open spec fn place(app: InstalledApp) -> Seq<char> {
    normalized_path(app.install_location@)
}

/// The name by which applications are ordered.
pub open spec fn name_key(app: InstalledApp) -> Seq<char> {
    text::lowercase(app.display_name@)
}

pub open spec fn by_name() -> spec_fn(InstalledApp) -> Seq<char> {
    |app: InstalledApp| name_key(app)
}

pub open spec fn by_place() -> spec_fn(InstalledApp) -> Seq<char> {
    |app: InstalledApp| place(app)
}

/// Sorts applications by name, without regard to case.
pub fn sort_by_name(apps: Vec<InstalledApp>) -> (r: Vec<InstalledApp>)
    ensures
        list::is_sorted_by(apps@, r@, by_name()),
{
    let ghost all = apps@;
    let mut rest = Queue::of(apps);
    let mut keyed: Vec<Keyed<InstalledApp>> = Vec::new();
    assert(rest@ =~= all.skip(0));
    while rest.len() > 0
        invariant
            keyed@.len() + rest@.len() == all.len(),
            rest@ == all.skip(keyed@.len() as int),
            forall|i: int|
                0 <= i < keyed@.len() ==> (#[trigger] keyed@[i]).item == all[i] && keyed@[i].key@
                    == name_key(all[i]),
        decreases rest@.len(),
    {
        let ghost n = keyed@.len() as int;
        let app = rest.take_first();
        assert(app == all[n]);
        assert(rest@ =~= all.skip(n + 1));
        let key = text::to_lowercase(app.display_name.as_str());
        keyed.push(Keyed { key, item: app });
    }
    assert(list::items_of(keyed@) =~= all);
    list::sort_keyed(keyed)
}

fn sort_by_place(apps: Vec<InstalledApp>) -> (r: Vec<InstalledApp>)
    ensures
        list::is_sorted_by(apps@, r@, by_place()),
{
    let ghost all = apps@;
    let mut rest = Queue::of(apps);
    let mut keyed: Vec<Keyed<InstalledApp>> = Vec::new();
    assert(rest@ =~= all.skip(0));
    while rest.len() > 0
        invariant
            keyed@.len() + rest@.len() == all.len(),
            rest@ == all.skip(keyed@.len() as int),
            forall|i: int|
                0 <= i < keyed@.len() ==> (#[trigger] keyed@[i]).item == all[i] && keyed@[i].key@
                    == place(all[i]),
        decreases rest@.len(),
    {
        let ghost n = keyed@.len() as int;
        let app = rest.take_first();
        assert(app == all[n]);
        assert(rest@ =~= all.skip(n + 1));
        let key = normalize_path(app.install_location.as_str());
        keyed.push(Keyed { key, item: app });
    }
    assert(list::items_of(keyed@) =~= all);
    list::sort_keyed(keyed)
}

/// Whether one path lies inside another.
pub open spec fn is_inside(inner: Seq<char>, outer: Seq<char>) -> bool {
    text::has_prefix(inner, outer) && inner.len() > outer.len() && inner[outer.len() as int] == '\\'
}

/// Whether an application lies inside another of the list.
pub open spec fn lies_in_another(apps: Seq<InstalledApp>, app: InstalledApp) -> bool {
    exists|j: int| 0 <= j < apps.len() && is_inside(place(app), place(#[trigger] apps[j]))
}

pub open spec fn is_outermost(apps: Seq<InstalledApp>) -> spec_fn(InstalledApp) -> bool {
    |app: InstalledApp| !lies_in_another(apps, app)
}

/// The applications of a list that lie inside no other of the list.
pub open spec fn outermost(apps: Seq<InstalledApp>) -> Seq<InstalledApp> {
    apps.filter(is_outermost(apps))
}

/// Whether a list is another without the applications that lie inside others,
/// ordered by place.
pub open spec fn is_deduped(apps: Seq<InstalledApp>, r: Seq<InstalledApp>) -> bool {
    exists|sorted: Seq<InstalledApp>| #[trigger]
        list::is_sorted_by(apps, sorted, by_place()) && r == outermost(sorted)
}

fn is_inside_chars(inner: &Vec<char>, outer: &Vec<char>) -> (r: bool)
    ensures
        r == is_inside(inner@, outer@),
{
    text::stands_at_index(inner, outer, 0) && inner.len() > outer.len() && inner[outer.len()]
        == '\\'
}

/// Removes the applications that lie inside others: parts of an application
/// are no applications of their own.
pub fn dedup_subdirectory_apps(apps: &mut Vec<InstalledApp>)
    ensures
        is_deduped(old(apps)@, final(apps)@),
{
    let ghost before = apps@;
    let mut taken: Vec<InstalledApp> = Vec::new();
    std::mem::swap(apps, &mut taken);
    let in_order = sort_by_place(taken);
    let ghost sorted = in_order@;
    let mut places: Vec<Vec<char>> = Vec::new();
    let mut i: usize = 0;
    while i < in_order.len()
        invariant
            i <= sorted.len(),
            places@.len() == i,
            forall|k: int| 0 <= k < i ==> (#[trigger] places@[k])@ == place(sorted[k]),
        decreases sorted.len() - i,
    {
        let key = normalize_path(in_order[i].install_location.as_str());
        places.push(text::chars_of(key.as_str()));
        i = i + 1;
    }
    let mut rest = Queue::of(in_order);
    let mut kept: Vec<InstalledApp> = Vec::new();
    let mut open: Vec<usize> = Vec::new();
    let mut n: usize = 0;
    assert(rest@ =~= sorted.skip(0));
    proof {
        reveal(Seq::filter);
    }
    while rest.len() > 0
        invariant
            n <= sorted.len(),
            rest@ == sorted.skip(n as int),
            places@.len() == sorted.len(),
            forall|k: int| 0 <= k < sorted.len() ==> (#[trigger] places@[k])@ == place(sorted[k]),
            are_open(sorted, open@, n as int),
            kept@ == sorted.take(n as int).filter(is_outermost(sorted)),
        decreases rest@.len(),
    {
        let app = rest.take_first();
        assert(app == sorted[n as int]);
        assert(rest@ =~= sorted.skip(n + 1));
        assert(sorted.take(n + 1).drop_last() =~= sorted.take(n as int));
        while open.len() > 0 && !text::stands_at_index(&places[n], &places[open[open.len() - 1]], 0)
            invariant
                are_open(sorted, open@, n as int),
            decreases open@.len(),
        {
            proof {
                lemma_closing(before, sorted, open@, n as int);
            }
            open.pop();
        }
        let mut inside = false;
        let mut j: usize = 0;
        while j < open.len() && !inside
            invariant
                j <= open@.len(),
                inside ==> lies_in_another(sorted, app),
                !inside ==> forall|k: int|
                    0 <= k < j ==> !is_inside(
                        place(app),
                        place(sorted[#[trigger] open@[k] as int]),
                    ),
            decreases open@.len() - j,
        {
            if is_inside_chars(&places[n], &places[open[j]]) {
                assert(is_inside(place(app), place(sorted[open@[j as int] as int])));
                inside = true;
            }
            j = j + 1;
        }
        proof {
            reveal(Seq::filter);
            if !inside {
                lemma_outer_is_open(before, sorted, open@, n as int);
            }
        }
        if !inside {
            kept.push(app);
        }
        let ghost earlier = open@;
        open.push(n);
        proof {
            assert forall|k: int, m: int|
                0 <= k < n + 1 && n + 1 <= m < sorted.len() && #[trigger] text::has_prefix(
                    place(sorted[m]),
                    place(sorted[k]),
                ) implies open@.contains(k as usize) by {
                if k < n {
                    let x = earlier.index_of(k as usize);
                    assert(open@[x] == k as usize);
                } else {
                    assert(open@[open@.len() - 1] == k as usize);
                }
            }
        }
        n = n + 1;
    }
    assert(sorted.take(n as int) =~= sorted);
    *apps = kept;
    assert(list::is_sorted_by(before, sorted, by_place()));
}

/// Whether the positions hold all applications before `n` whose places begin
/// the place of one from `n` on.
spec fn are_open(sorted: Seq<InstalledApp>, open: Seq<usize>, n: int) -> bool {
    &&& forall|x: int| 0 <= x < open.len() ==> 0 <= #[trigger] open[x] < n
    &&& forall|k: int, m: int|
        0 <= k < n && n <= m < sorted.len() && #[trigger] text::has_prefix(
            place(sorted[m]),
            place(sorted[k]),
        ) ==> open.contains(k as usize)
}

proof fn lemma_places_in_order(apps: Seq<InstalledApp>, sorted: Seq<InstalledApp>, i: int, j: int)
    requires
        list::is_sorted_by(apps, sorted, by_place()),
        0 <= i < j < sorted.len(),
    ensures
        !text::text_before(place(sorted[j]), place(sorted[i])),
{
    let p = choose|p: Seq<int>| list::is_arranged_by(apps, sorted, by_place(), p);
    assert(!text::text_before(by_place()(sorted[j]), by_place()(sorted[i])));
}

/// A place that does not begin the next one begins none that follows.
proof fn lemma_closing(
    apps: Seq<InstalledApp>,
    sorted: Seq<InstalledApp>,
    open: Seq<usize>,
    n: int,
)
    requires
        list::is_sorted_by(apps, sorted, by_place()),
        sorted.len() <= usize::MAX,
        0 <= n < sorted.len(),
        are_open(sorted, open, n),
        open.len() > 0,
        !text::has_prefix(place(sorted[n]), place(sorted[open.last() as int])),
    ensures
        are_open(sorted, open.drop_last(), n),
{
    let t = open.last() as int;
    assert(0 <= open[open.len() - 1] < n);
    assert forall|k: int, m: int|
        0 <= k < n && n <= m < sorted.len() && #[trigger] text::has_prefix(
            place(sorted[m]),
            place(sorted[k]),
        ) implies open.drop_last().contains(k as usize) by {
        let x = open.index_of(k as usize);
        if k == t {
            text::lemma_prefix_in_order(place(sorted[t]), place(sorted[n]), place(sorted[m]));
            lemma_places_in_order(apps, sorted, t, n);
            if n < m {
                lemma_places_in_order(apps, sorted, n, m);
            } else {
                text::lemma_text_before_total(place(sorted[m]), place(sorted[n]));
            }
        }
        assert(x < open.len() - 1);
        assert(open.drop_last()[x] == k as usize);
    }
}

/// An application that lies in none of the open ones lies in none at all.
proof fn lemma_outer_is_open(
    apps: Seq<InstalledApp>,
    sorted: Seq<InstalledApp>,
    open: Seq<usize>,
    n: int,
)
    requires
        list::is_sorted_by(apps, sorted, by_place()),
        sorted.len() <= usize::MAX,
        0 <= n < sorted.len(),
        are_open(sorted, open, n),
        forall|x: int|
            0 <= x < open.len() ==> !is_inside(
                place(sorted[n]),
                place(sorted[#[trigger] open[x] as int]),
            ),
    ensures
        !lies_in_another(sorted, sorted[n]),
{
    assert forall|k: int| 0 <= k < sorted.len() implies !is_inside(
        place(sorted[n]),
        place(#[trigger] sorted[k]),
    ) by {
        if is_inside(place(sorted[n]), place(sorted[k])) {
            text::lemma_prefix_in_order(place(sorted[k]), place(sorted[k]), place(sorted[n]));
            if k > n {
                lemma_places_in_order(apps, sorted, n, k);
            } else if k < n {
                let x = open.index_of(k as usize);
                assert(open[x] as int == k);
            }
        }
    }
}

/// Of the applications that are kept none lies inside another.
pub proof fn law_no_app_inside_another(apps: Seq<InstalledApp>, a: InstalledApp, b: InstalledApp)
    requires
        outermost(apps).contains(a),
        outermost(apps).contains(b),
    ensures
        !is_inside(place(a), place(b)),
{
    let keeps = is_outermost(apps);
    let i = choose|i: int| 0 <= i < outermost(apps).len() && outermost(apps)[i] == a;
    apps.lemma_filter_pred(keeps, i);
    apps.lemma_filter_contains_rev(keeps, b);
    let j = choose|j: int| 0 <= j < apps.len() && apps[j] == b;
    if is_inside(place(a), place(b)) {
        assert(is_inside(place(a), place(apps[j])));
    }
}

proof fn lemma_inside_is_transitive(a: Seq<char>, b: Seq<char>, c: Seq<char>)
    requires
        is_inside(a, b),
        is_inside(b, c),
    ensures
        is_inside(a, c),
{
    assert(a.subrange(0, b.len() as int) =~= b);
    assert(b.subrange(0, c.len() as int) =~= c);
    assert(a.subrange(0, c.len() as int) =~= b.subrange(0, c.len() as int));
}

/// An application that is not kept lies inside one that is.
pub proof fn law_dropped_app_lies_in_a_kept_one(apps: Seq<InstalledApp>, app: InstalledApp)
    requires
        apps.contains(app),
        !outermost(apps).contains(app),
    ensures
        exists|b: InstalledApp| #[trigger]
            outermost(apps).contains(b) && is_inside(place(app), place(b)),
    decreases place(app).len(),
{
    let keeps = is_outermost(apps);
    let i = choose|i: int| 0 <= i < apps.len() && apps[i] == app;
    if !lies_in_another(apps, app) {
        apps.lemma_filter_contains(keeps, i);
    }
    let j = choose|j: int| 0 <= j < apps.len() && is_inside(place(app), place(#[trigger] apps[j]));
    let outer = apps[j];
    if !outermost(apps).contains(outer) {
        law_dropped_app_lies_in_a_kept_one(apps, outer);
        let b = choose|b: InstalledApp| #[trigger]
            outermost(apps).contains(b) && is_inside(place(outer), place(b));
        lemma_inside_is_transitive(place(app), place(outer), place(b));
    }
}

/// The text of a registry value without surrounding blanks and quotes and
/// without trailing separators.
pub open spec fn cleaned(raw: Seq<char>) -> Seq<char> {
    text::trimmed_end(
        text::trimmed(text::trimmed(raw, CharSet::Whitespace), CharSet::One('"')),
        CharSet::Two('\\', '/'),
    )
}

/// A location as the registry gives it, cleaned.
pub fn clean_location(raw: &str) -> (r: String)
    ensures
        r@ == cleaned(raw@),
{
    let blank = text::trim(raw, CharSet::Whitespace);
    let quoted = text::trim(blank.as_str(), CharSet::One('"'));
    text::trim_end(quoted.as_str(), CharSet::Two('\\', '/'))
}

/// The location of an application: that which the registry gives, unless it is
/// blank or no home of one application; else that which the icon or, failing
/// that, the uninstall command leads to.
pub open spec fn resolved_location(
    raw: Seq<char>,
    from_icon: Option<Seq<char>>,
    from_uninstall: Option<Seq<char>>,
) -> Seq<char> {
    if cleaned(raw).len() > 0 && !scan_rules::is_container(cleaned(raw)) {
        cleaned(raw)
    } else {
        match (from_icon, from_uninstall) {
            (Some(dir), _) => text::trimmed_end(dir, CharSet::Two('\\', '/')),
            (None, Some(dir)) => text::trimmed_end(dir, CharSet::Two('\\', '/')),
            (None, None) => seq![],
        }
    }
}

/// The location of an application.
pub fn resolve_install_location_from_registry(
    raw: &str,
    from_icon: &Option<String>,
    from_uninstall: &Option<String>,
) -> (r: String)
    ensures
        r@ == resolved_location(
            raw@,
            text::view_of(*from_icon),
            text::view_of(*from_uninstall),
        ),
{
    let location = clean_location(raw);
    if !location.as_str().is_empty() && !is_container_directory(location.as_str()) {
        return location;
    }
    match (from_icon, from_uninstall) {
        (Some(dir), _) => text::trim_end(dir.as_str(), CharSet::Two('\\', '/')),
        (None, Some(dir)) => text::trim_end(dir.as_str(), CharSet::Two('\\', '/')),
        (None, None) => {
            let r = String::new();
            assert(r@ =~= Seq::<char>::empty());
            r
        },
    }
}

/// The file that an icon entry names: the part before the first comma, without
/// surrounding blanks and quotes.
pub open spec fn icon_file(display_icon: Seq<char>) -> Seq<char> {
    text::trimmed(
        text::trimmed(text::pieces(display_icon, CharSet::One(','))[0], CharSet::Whitespace),
        CharSet::One('"'),
    )
}

/// The file that an icon entry names.
pub fn icon_file_of(display_icon: &str) -> (r: String)
    ensures
        r@ == icon_file(display_icon@),
{
    let parts = text::split(display_icon, CharSet::One(','));
    assert(text::texts(parts@)[0] == parts@[0]@);
    let blank = text::trim(parts[0].as_str(), CharSet::Whitespace);
    text::trim(blank.as_str(), CharSet::One('"'))
}

/// An icon entry, or nothing where the file that it names does not exist.
pub fn validate_display_icon(display_icon: &str, file_exists: bool) -> (r: String)
    ensures
        r@ == if icon_file(display_icon@).len() > 0 && !file_exists {
            seq![]
        } else {
            display_icon@
        },
{
    if display_icon.is_empty() {
        let r = String::new();
        assert(r@ =~= display_icon@);
        return r;
    }
    let file = icon_file_of(display_icon);
    if !file.as_str().is_empty() && !file_exists {
        let r = String::new();
        assert(r@ =~= Seq::<char>::empty());
        return r;
    }
    display_icon.to_owned()
}

/// An entry of the registry's list of applications.
#[derive(Debug)]
pub struct RegistryEntry {
    /// `HKLM` or `HKCU`.
    pub hive: String,
    pub base_path: String,
    pub subkey: String,
    pub display_name: String,
    /// The location as it was resolved.
    pub install_location: String,
    pub location_exists: bool,
    pub location_is_link: bool,
    pub display_icon: String,
    pub icon_exists: bool,
    pub publisher: String,
    /// Estimated size in KB.
    pub estimated_size: u32,
}

pub open spec fn store_parts() -> Seq<&'static str> {
    seq![
        "\\windowsapps\\",
        "\\program files\\windowsapps",
        "\\program files (x86)\\windowsapps",
    ]
}

/// Whether an entry of the registry is an application that can be managed: it
/// has a name, is no part of the system, and has a home of its own outside the
/// store's directories, which exists or is a link.
pub open spec fn is_registry_app(entry: RegistryEntry) -> bool {
    &&& entry.display_name@.len() > 0
    &&& !scan_rules::is_component_name(entry.display_name@)
    &&& entry.install_location@.len() > 0
    &&& !scan_rules::is_container(entry.install_location@)
    &&& !text::contains_one(store_parts(), text::lowercase(entry.install_location@))
    &&& entry.location_exists || entry.location_is_link
}

/// The application that an entry of the registry describes, if it describes
/// one.
pub fn scan_registry_path(entry: RegistryEntry) -> (r: Option<InstalledApp>)
    ensures
        r is Some <==> is_registry_app(entry),
        r matches Some(app) ==> {
            &&& app.display_name == entry.display_name
            &&& app.install_location@ == text::trimmed_end(
                entry.install_location@,
                CharSet::Two('\\', '/'),
            )
            &&& app.display_icon@ == if icon_file(entry.display_icon@).len() > 0
                && !entry.icon_exists {
                seq![]
            } else {
                entry.display_icon@
            }
            &&& app.estimated_size == entry.estimated_size
            &&& app.icon_base64@.len() == 0
            &&& app.icon_url@.len() == 0
            &&& app.registry_path@ == entry.hive@ + "\\"@ + entry.base_path@ + "\\"@
                + entry.subkey@
            &&& app.publisher == entry.publisher
        },
{
    if entry.display_name.as_str().is_empty() || is_system_component(entry.display_name.as_str())
        || entry.install_location.as_str().is_empty() || is_container_directory(
        entry.install_location.as_str(),
    ) {
        return None;
    }
    let parts = vec![
        "\\windowsapps\\",
        "\\program files\\windowsapps",
        "\\program files (x86)\\windowsapps",
    ];
    assert(parts@ =~= store_parts());
    let lower = text::to_lowercase(entry.install_location.as_str());
    if text::contains_any(&parts, lower.as_str()) {
        return None;
    }
    if !entry.location_exists && !entry.location_is_link {
        return None;
    }
    let mut registry_path = entry.hive.clone();
    registry_path.push_str("\\");
    registry_path.push_str(entry.base_path.as_str());
    registry_path.push_str("\\");
    registry_path.push_str(entry.subkey.as_str());
    let display_icon = validate_display_icon(entry.display_icon.as_str(), entry.icon_exists);
    let install_location = text::trim_end(
        entry.install_location.as_str(),
        CharSet::Two('\\', '/'),
    );
    Some(
        InstalledApp {
            display_name: entry.display_name,
            install_location,
            display_icon,
            estimated_size: entry.estimated_size as u64,
            icon_base64: String::new(),
            icon_url: String::new(),
            registry_path,
            publisher: entry.publisher,
        },
    )
}

/// Whether two entries have the same name and place.
pub open spec fn same_entry(a: InstalledApp, b: InstalledApp) -> bool {
    a.display_name@ == b.display_name@ && place(a) == place(b)
}

/// The entries of a list whose name and place no earlier entry has.
pub open spec fn first_entries(apps: Seq<InstalledApp>) -> Seq<InstalledApp>
    decreases apps.len(),
{
    if apps.len() == 0 {
        seq![]
    } else {
        let front = apps.drop_last();
        let before = first_entries(front);
        if exists|i: int| 0 <= i < front.len() && same_entry(#[trigger] front[i], apps.last()) {
            before
        } else {
            before.push(apps.last())
        }
    }
}

/// A kept entry stands in the list; every entry of the list is like a kept one.
proof fn lemma_first_entries(apps: Seq<InstalledApp>, app: InstalledApp)
    ensures
        (exists|i: int| 0 <= i < apps.len() && same_entry(#[trigger] apps[i], app)) <==> (exists|
            i: int,
        |
            0 <= i < first_entries(apps).len() && same_entry(
                #[trigger] first_entries(apps)[i],
                app,
            )),
    decreases apps.len(),
{
    if apps.len() > 0 {
        let front = apps.drop_last();
        let last = apps.last();
        lemma_first_entries(front, app);
        lemma_first_entries(front, last);
        let kept = first_entries(apps);
        let before = first_entries(front);
        if exists|i: int| 0 <= i < apps.len() && same_entry(#[trigger] apps[i], app) {
            let i = choose|i: int| 0 <= i < apps.len() && same_entry(#[trigger] apps[i], app);
            if i < front.len() {
                assert(same_entry(front[i], app));
                let j = choose|j: int|
                    0 <= j < before.len() && same_entry(#[trigger] before[j], app);
                assert(kept[j] == before[j]);
            } else if exists|k: int| 0 <= k < front.len() && same_entry(#[trigger] front[k], last) {
                let k = choose|k: int| 0 <= k < front.len() && same_entry(#[trigger] front[k], last);
                assert(same_entry(front[k], app));
                let j = choose|j: int|
                    0 <= j < before.len() && same_entry(#[trigger] before[j], app);
                assert(kept[j] == before[j]);
            } else {
                assert(kept[kept.len() - 1] == last);
            }
        }
        if exists|i: int| 0 <= i < kept.len() && same_entry(#[trigger] kept[i], app) {
            let i = choose|i: int| 0 <= i < kept.len() && same_entry(#[trigger] kept[i], app);
            if i < before.len() {
                assert(same_entry(before[i], app));
                let j = choose|j: int| 0 <= j < front.len() && same_entry(#[trigger] front[j], app);
                assert(apps[j] == front[j]);
            } else {
                assert(apps[apps.len() - 1] == kept[i]);
            }
        }
    }
}

/// The applications that the parts of the registry name, each once.
pub fn scan_registry_deep(apps: Vec<InstalledApp>) -> (r: Vec<InstalledApp>)
    ensures
        r@ == first_entries(apps@),
{
    let ghost all = apps@;
    let mut rest = Queue::of(apps);
    let mut r: Vec<InstalledApp> = Vec::new();
    let mut places: Vec<String> = Vec::new();
    let ghost mut n: int = 0;
    assert(rest@ =~= all.skip(0));
    while rest.len() > 0
        invariant
            0 <= n <= all.len(),
            rest@ == all.skip(n),
            r@ == first_entries(all.take(n)),
            places@.len() == r@.len(),
            forall|i: int| 0 <= i < r@.len() ==> (#[trigger] places@[i])@ == place(r@[i]),
        decreases rest@.len(),
    {
        let app = rest.take_first();
        assert(app == all[n]);
        assert(rest@ =~= all.skip(n + 1));
        assert(all.take(n + 1).drop_last() =~= all.take(n));
        proof {
            lemma_first_entries(all.take(n), app);
        }
        let key = normalize_path(app.install_location.as_str());
        let mut known = false;
        let mut i: usize = 0;
        while i < r.len() && !known
            invariant
                i <= r@.len(),
                known ==> exists|k: int| 0 <= k < r@.len() && same_entry(#[trigger] r@[k], app),
                !known ==> forall|k: int| 0 <= k < i ==> !same_entry(#[trigger] r@[k], app),
            decreases r@.len() - i,
        {
            assert(places@[i as int]@ == place(r@[i as int]));
            if text::same(places[i].as_str(), key.as_str()) && text::same(
                r[i].display_name.as_str(),
                app.display_name.as_str(),
            ) {
                assert(same_entry(r@[i as int], app));
                known = true;
            }
            i = i + 1;
        }
        if !known {
            places.push(key);
            r.push(app);
        }
        proof {
            n = n + 1;
        }
    }
    assert(all.take(n) =~= all);
    r
}

/// What is found behind a shortcut.
#[derive(Debug)]
pub struct ShortcutProbe {
    /// Path of the file that the shortcut leads to.
    pub target: String,
    pub target_exists: bool,
    /// Whether the target's directory is its home.
    pub is_home: bool,
    /// Path of the shortcut.
    pub shortcut: String,
}

/// The location of a shortcut's target.
pub open spec fn shortcut_location(probe: ShortcutProbe) -> Seq<char> {
    text::trimmed_end(path::parent(probe.target@)->0, CharSet::Two('\\', '/'))
}

/// The name of an application: that of the shortcut or, failing that, that of
/// its target.
pub open spec fn shortcut_name(probe: ShortcutProbe) -> Seq<char> {
    if path::last_stem(probe.shortcut@).len() > 0 {
        path::last_stem(probe.shortcut@)
    } else {
        path::last_stem(probe.target@)
    }
}

/// Whether a shortcut leads to an application that is not known yet.
pub open spec fn is_shortcut_app(probe: ShortcutProbe, known: Seq<String>) -> bool {
    &&& path::last_extension(probe.target@) == Some("exe"@)
    &&& probe.target_exists
    &&& !scan_rules::is_installer_name(text::lowercase(path::last_name(probe.target@)->0))
    &&& path::parent(probe.target@) is Some
    &&& !holds_text(known, normalized_path(shortcut_location(probe)))
    &&& !text::contains_one(
        scan_rules::system_parts(),
        text::lowercase(shortcut_location(probe)),
    )
    &&& !scan_rules::is_container(shortcut_location(probe))
    &&& probe.is_home
    &&& shortcut_name(probe).len() > 0
}

/// Whether an application is a bare one: nothing but a name, a location and an
/// icon path is known of it.
pub open spec fn is_bare(
    app: InstalledApp,
    name: Seq<char>,
    location: Seq<char>,
    icon: Seq<char>,
) -> bool {
    &&& app.display_name@ == name
    &&& app.install_location@ == location
    &&& app.display_icon@ == icon
    &&& app.estimated_size == 0
    &&& app.icon_base64@.len() == 0
    &&& app.icon_url@.len() == 0
    &&& app.registry_path@.len() == 0
    &&& app.publisher@.len() == 0
}

fn bare_app(display_name: String, install_location: String, display_icon: String) -> (r:
    InstalledApp)
    ensures
        is_bare(r, display_name@, install_location@, display_icon@),
{
    InstalledApp {
        display_name,
        install_location,
        display_icon,
        estimated_size: 0,
        icon_base64: String::new(),
        icon_url: String::new(),
        registry_path: String::new(),
        publisher: String::new(),
    }
}

/// The application that a shortcut leads to, if it leads to a new one.
pub fn resolve_lnk_file(probe: ShortcutProbe, known: &Vec<String>) -> (r: Option<InstalledApp>)
    ensures
        match r {
            Some(app) => is_shortcut_app(probe, known@) && is_bare(
                app,
                shortcut_name(probe),
                shortcut_location(probe),
                probe.target@,
            ),
            None => !is_shortcut_app(probe, known@),
        },
{
    let target_name = match path::last_name_of(probe.target.as_str()) {
        Some(name) => name,
        None => {
            return None;
        },
    };
    let is_exe = match path::extension_of(target_name.as_str()) {
        Some(extension) => text::same(extension.as_str(), "exe"),
        None => false,
    };
    if !is_exe || !probe.target_exists {
        return None;
    }
    let name = text::to_lowercase(target_name.as_str());
    if is_installer_like_exe(name.as_str()) {
        return None;
    }
    let location = match path::parent_of(probe.target.as_str()) {
        Some(dir) => text::trim_end(dir.as_str(), CharSet::Two('\\', '/')),
        None => {
            return None;
        },
    };
    let key = normalize_path(location.as_str());
    if has_text(known, key.as_str()) || is_system_path(location.as_str()) || is_container_directory(
        location.as_str(),
    ) || !probe.is_home {
        return None;
    }
    let own_name = path::last_stem_of(probe.shortcut.as_str());
    let display_name = if !own_name.as_str().is_empty() {
        own_name
    } else {
        path::stem_of(target_name.as_str())
    };
    if display_name.as_str().is_empty() {
        return None;
    }
    Some(bare_app(display_name, location, probe.target))
}

/// The applications of a list whose place is neither known nor that of an
/// earlier one.
pub open spec fn new_apps(apps: Seq<InstalledApp>, known: Seq<String>) -> Seq<InstalledApp>
    decreases apps.len(),
{
    if apps.len() == 0 {
        seq![]
    } else {
        let front = apps.drop_last();
        let before = new_apps(front, known);
        if holds_text(known, place(apps.last())) || (exists|i: int|
            0 <= i < front.len() && place(#[trigger] front[i]) == place(apps.last())) {
            before
        } else {
            before.push(apps.last())
        }
    }
}

/// Whether the places seen so far are those known at first and those of a list.
spec fn has_seen(seen: Seq<String>, known: Seq<String>, apps: Seq<InstalledApp>) -> bool {
    forall|t: Seq<char>| #[trigger]
        holds_text(seen, t) <==> (holds_text(known, t) || exists|i: int|
            0 <= i < apps.len() && place(#[trigger] apps[i]) == t)
}

/// The applications of a list that are new, in order.
pub fn merge_new_apps(apps: Vec<InstalledApp>, known: &Vec<String>) -> (r: Vec<InstalledApp>)
    ensures
        r@ == new_apps(apps@, known@),
{
    let ghost all = apps@;
    let mut rest = Queue::of(apps);
    let mut r: Vec<InstalledApp> = Vec::new();
    let mut seen = list::copy_texts(known);
    let ghost mut n: int = 0;
    assert(rest@ =~= all.skip(0));
    while rest.len() > 0
        invariant
            0 <= n <= all.len(),
            rest@ == all.skip(n),
            r@ == new_apps(all.take(n), known@),
            has_seen(seen@, known@, all.take(n)),
        decreases rest@.len(),
    {
        let app = rest.take_first();
        assert(app == all[n]);
        assert(rest@ =~= all.skip(n + 1));
        assert(all.take(n + 1).drop_last() =~= all.take(n));
        let key = normalize_path(app.install_location.as_str());
        let is_new = !has_text(&seen, key.as_str());
        let ghost seen_before = seen@;
        if is_new {
            proof {
                list::lemma_holds_text_push(seen@, key);
            }
            seen.push(key);
            r.push(app);
        }
        proof {
            let longer = all.take(n + 1);
            let shorter = all.take(n);
            assert forall|t: Seq<char>| #[trigger] holds_text(seen@, t) <==> (holds_text(known@, t)
                || exists|i: int| 0 <= i < longer.len() && place(#[trigger] longer[i]) == t) by {
                if exists|i: int| 0 <= i < shorter.len() && place(#[trigger] shorter[i]) == t {
                    let i = choose|i: int|
                        0 <= i < shorter.len() && place(#[trigger] shorter[i]) == t;
                    assert(place(longer[i]) == t);
                }
                if exists|i: int| 0 <= i < longer.len() && place(#[trigger] longer[i]) == t {
                    let i = choose|i: int|
                        0 <= i < longer.len() && place(#[trigger] longer[i]) == t;
                    if i < n {
                        assert(place(shorter[i]) == t);
                    }
                }
                if t == place(app) {
                    assert(place(longer[n]) == t);
                }
                assert(holds_text(seen_before, t) <==> (holds_text(known@, t) || exists|i: int|
                    0 <= i < shorter.len() && place(#[trigger] shorter[i]) == t));
            }
            n = n + 1;
        }
    }
    assert(all.take(n) =~= all);
    r
}

/// No application of a merged list is at a known place.
pub proof fn law_merged_apps_are_new(apps: Seq<InstalledApp>, known: Seq<String>, i: int)
    requires
        0 <= i < new_apps(apps, known).len(),
    ensures
        !holds_text(known, place(new_apps(apps, known)[i])),
        apps.contains(new_apps(apps, known)[i]),
    decreases apps.len(),
{
    let front = apps.drop_last();
    if i < new_apps(front, known).len() {
        law_merged_apps_are_new(front, known, i);
        let app = new_apps(front, known)[i];
        let k = choose|k: int| 0 <= k < front.len() && front[k] == app;
        assert(apps[k] == app);
    } else {
        assert(apps[apps.len() - 1] == new_apps(apps, known)[i]);
    }
}

/// How many levels below its registered location an application's directory
/// is read.
pub const REGISTERED_DEPTH: usize = 3;

/// Whether a directory is read: it is not too deep, not known to hold no
/// applications, and not a remote part of the registered location, where one is
/// given.
pub open spec fn is_worth_reading(
    dir: Seq<char>,
    depth: usize,
    max_depth: usize,
    registered: Option<Seq<char>>,
    temp: Option<Seq<char>>,
) -> bool {
    &&& depth <= max_depth
    &&& !scan_rules::is_blacklisted(dir, temp)
    &&& path::last_name(dir) matches Some(name) ==> !scan_rules::is_skippable(name)
        && text::ascii_lowercase(name) != text::ascii_lowercase(
        "InstallShield Installation Information"@,
    )
    &&& registered matches Some(place) ==> path::lies_in(dir, place) ==> path::components(
        path::rest_below(dir, place),
    ).len() <= REGISTERED_DEPTH
}

/// Whether a directory is read.
pub fn should_read_directory(
    dir: &str,
    depth: usize,
    max_depth: usize,
    registered: &Option<String>,
    temp: &Option<String>,
) -> (r: bool)
    ensures
        r == is_worth_reading(
            dir@,
            depth,
            max_depth,
            text::view_of(*registered),
            text::view_of(*temp),
        ),
{
    if depth > max_depth || scan_rules::is_blacklisted_path(dir, temp) {
        return false;
    }
    if let Some(name) = path::last_name_of(dir) {
        if is_skippable_dir(name.as_str()) || text::same_ignoring_ascii_case(
            name.as_str(),
            "InstallShield Installation Information",
        ) {
            return false;
        }
    }
    match registered {
        Some(place) => match path::strip(dir, place.as_str()) {
            Some(rest) => {
                let parts = path::components_of(rest.as_str());
                assert(text::texts(parts@).len() == parts@.len());
                parts.len() <= REGISTERED_DEPTH
            },
            None => true,
        },
        None => true,
    }
}

/// What is done with a directory in a search.
#[derive(Debug, Clone, Copy, PartialEq, Eq, Structural)]
pub enum WalkStep {
    /// The application in it is taken; what lies deeper is not looked at.
    Take,
    /// Nothing.
    Skip,
    /// The directories in it are looked at.
    Descend,
}

/// What is done with a directory in a search. `has_app` says whether an
/// executable in it looks like an application. A link is looked at wherever it
/// lies, but never entered.
pub fn walk_step(
    dir: &str,
    depth: usize,
    max_depth: usize,
    is_link: bool,
    has_app: bool,
    temp: &Option<String>,
) -> (r: WalkStep)
    ensures
        r == if is_link {
            if has_app {
                WalkStep::Take
            } else {
                WalkStep::Skip
            }
        } else if !is_worth_reading(dir@, depth, max_depth, None, text::view_of(*temp)) {
            WalkStep::Skip
        } else if has_app {
            WalkStep::Take
        } else {
            WalkStep::Descend
        },
{
    if is_link {
        if has_app {
            WalkStep::Take
        } else {
            WalkStep::Skip
        }
    } else if !should_read_directory(dir, depth, max_depth, &None, temp) {
        WalkStep::Skip
    } else if has_app {
        WalkStep::Take
    } else {
        WalkStep::Descend
    }
}

/// A directory in which an executable looks like an application.
#[derive(Debug)]
pub struct FoundApp {
    pub directory: String,
    pub exe_path: String,
    /// Whether the directory is a link.
    pub is_link: bool,
}

/// Whether what looks like an application counts: an executable with a version
/// in its name is taken for an installer, unless it lies at a known place; a
/// link to a known place never counts.
pub open spec fn is_accepted(found: FoundApp, known: Seq<String>) -> bool {
    if holds_text(known, normalized_path(found.directory@)) {
        !found.is_link
    } else {
        !scan_rules::has_version(path::last_stem(found.exe_path@))
    }
}

/// Whether what looks like an application counts.
pub fn accepts_found_app(found: &FoundApp, known: &Vec<String>) -> (r: bool)
    ensures
        r == is_accepted(*found, known@),
{
    let key = normalize_path(found.directory.as_str());
    if has_text(known, key.as_str()) {
        !found.is_link
    } else {
        !has_version_pattern_in_stem(path::last_stem_of(found.exe_path.as_str()).as_str())
    }
}

/// The name of a found application: that of the executable or, failing that,
/// that of the directory.
pub open spec fn found_name(found: FoundApp) -> Seq<char> {
    if path::last_stem(found.exe_path@).len() > 0 {
        path::last_stem(found.exe_path@)
    } else {
        match path::last_name(found.directory@) {
            Some(name) => name,
            None => seq![],
        }
    }
}

/// Whether a found application is added to the list.
pub open spec fn is_added(found: FoundApp, known: Seq<String>, seen: Seq<String>) -> bool {
    let location = normalized_path(found.directory@);
    let exe = normalized_path(found.exe_path@);
    &&& !scan_rules::is_container(found.directory@)
    &&& location.len() > 0
    &&& exe.len() > 0
    &&& !holds_text(known, location)
    &&& !holds_text(seen, location)
    &&& !holds_text(seen, exe)
    &&& found_name(found).len() > 0
}

/// Adds a found application to the list, unless its directory is no home of
/// one application, or it or its executable is known already.
pub fn maybe_push_app(
    found: &FoundApp,
    known: &Vec<String>,
    seen: &mut Vec<String>,
    out: &mut Vec<InstalledApp>,
)
    ensures
        if is_added(*found, known@, old(seen)@) {
            &&& final(out)@.len() == old(out)@.len() + 1
            &&& final(out)@.drop_last() == old(out)@
            &&& is_bare(
                final(out)@.last(),
                found_name(*found),
                found.directory@,
                found.exe_path@,
            )
            &&& text::texts(final(seen)@) == text::texts(old(seen)@).push(
                normalized_path(found.directory@),
            ).push(normalized_path(found.exe_path@))
        } else {
            final(out)@ == old(out)@ && final(seen)@ == old(seen)@
        },
{
    if is_container_directory(found.directory.as_str()) {
        return;
    }
    let location = normalize_path(found.directory.as_str());
    let exe = normalize_path(found.exe_path.as_str());
    if location.as_str().is_empty() || exe.as_str().is_empty() || has_text(
        known,
        location.as_str(),
    ) || has_text(seen, location.as_str()) || has_text(seen, exe.as_str()) {
        return;
    }
    let exe_stem = path::last_stem_of(found.exe_path.as_str());
    let display_name = if !exe_stem.as_str().is_empty() {
        exe_stem
    } else {
        match path::last_name_of(found.directory.as_str()) {
            Some(name) => name,
            None => {
                return;
            },
        }
    };
    if display_name.as_str().is_empty() {
        return;
    }
    proof {
        text::lemma_texts_push(seen@, location);
        text::lemma_texts_push(seen@.push(location), exe);
    }
    seen.push(location);
    seen.push(exe);
    let ghost before = out@;
    out.push(bare_app(display_name, found.directory.clone(), found.exe_path.clone()));
    assert(out@.drop_last() =~= before);
}

/// What counts as seen beside a found application: where its directory leads,
/// if it is a link.
pub open spec fn linked_places(found: FoundApp, link_target: Option<Seq<char>>) -> Seq<Seq<char>> {
    match link_target {
        Some(target) if found.is_link => seq![normalized_path(target)],
        _ => seq![],
    }
}

/// Takes in a directory in which an executable looks like an application. What
/// a link leads to counts as seen, so that it is not found a second time.
pub fn scan_directory_constrained(
    found: &FoundApp,
    link_target: &Option<String>,
    known: &Vec<String>,
    seen: &mut Vec<String>,
    out: &mut Vec<InstalledApp>,
)
    ensures
        if is_accepted(*found, known@) && is_added(*found, known@, old(seen)@) {
            &&& final(out)@.len() == old(out)@.len() + 1
            &&& final(out)@.drop_last() == old(out)@
            &&& is_bare(
                final(out)@.last(),
                found_name(*found),
                found.directory@,
                found.exe_path@,
            )
        } else {
            final(out)@ == old(out)@
        },
        text::texts(final(seen)@) == text::texts(old(seen)@) + (if !is_accepted(*found, known@) {
            seq![]
        } else if is_added(*found, known@, old(seen)@) {
            seq![normalized_path(found.directory@), normalized_path(found.exe_path@)]
                + linked_places(*found, text::view_of(*link_target))
        } else {
            linked_places(*found, text::view_of(*link_target))
        }),
{
    let ghost before = text::texts(seen@);
    if !accepts_found_app(found, known) {
        assert(before + Seq::<Seq<char>>::empty() =~= before);
        return;
    }
    maybe_push_app(found, known, seen, out);
    let ghost pushed = text::texts(seen@);
    if found.is_link {
        if let Some(target) = link_target {
            let place = normalize_path(target.as_str());
            proof {
                text::lemma_texts_push(seen@, place);
            }
            seen.push(place);
        }
    }
    assert(text::texts(seen@) =~= pushed + linked_places(*found, text::view_of(*link_target)));
    assert(is_added(*found, known@, old(seen)@) ==> pushed =~= before + seq![
        normalized_path(found.directory@),
        normalized_path(found.exe_path@),
    ]);
    assert(text::texts(seen@) =~= before + (if is_added(*found, known@, old(seen)@) {
        seq![normalized_path(found.directory@), normalized_path(found.exe_path@)] + linked_places(
            *found,
            text::view_of(*link_target),
        )
    } else {
        linked_places(*found, text::view_of(*link_target))
    }));
}

/// How deep the usual roots and those of other drives are searched.
pub const SCAN_DEPTH: usize = 2;

/// How deep the directories are searched in which users keep their programs.
pub const PREFERRED_SCAN_DEPTH: usize = 3;

/// How deep directories of shortcuts are searched.
pub const SHORTCUT_DEPTH: usize = 5;

/// Whether a mount point is that of another drive than the system's.
pub open spec fn is_other_mount(mount: Seq<char>) -> bool {
    !text::has_prefix(text::uppercase(mount), "C:"@)
}

/// Whether a mount point is that of another drive than the system's.
pub fn is_other_drive(mount: &str) -> (r: bool)
    ensures
        r == is_other_mount(mount@),
{
    let upper = text::to_uppercase(mount);
    !text::starts_with(upper.as_str(), "C:")
}

pub open spec fn program_directory_names() -> Seq<&'static str> {
    seq![
        "software",
        "app",
        "apps",
        "tools",
        "games",
        "programs",
        "applications",
        "portable",
    ]
}

/// The names of the directories in which users keep their programs.
pub fn app_dir_names() -> (r: Vec<&'static str>)
    ensures
        r@ == program_directory_names(),
{
    let r = vec![
        "software",
        "app",
        "apps",
        "tools",
        "games",
        "programs",
        "applications",
        "portable",
    ];
    assert(r@ =~= program_directory_names());
    r
}

/// The usual directories of programs; each is absent where there is none.
#[derive(Debug)]
pub struct UsualPlaces {
    pub program_files: Option<String>,
    pub program_files_x86: Option<String>,
    pub local_app_data: Option<String>,
    /// The directory of programs in the local data.
    pub local_programs: Option<String>,
    pub program_data: Option<String>,
}

/// What is known of a drive.
#[derive(Debug)]
pub struct DriveFacts {
    pub mount: String,
    /// The directories on it in which users keep their programs.
    pub program_dirs: Vec<String>,
}

/// A directory below which applications are searched for, and how deep.
#[derive(Debug)]
pub struct ScanRoot {
    pub path: String,
    pub depth: usize,
}

impl View for ScanRoot {
    type V = (Seq<char>, usize);

    open spec fn view(&self) -> (Seq<char>, usize) {
        (self.path@, self.depth)
    }
}

pub open spec fn root_views(roots: Seq<ScanRoot>) -> Seq<(Seq<char>, usize)> {
    roots.map(|i: int, root: ScanRoot| root@)
}

pub open spec fn usual_root(place: Option<String>) -> Seq<(Seq<char>, usize)> {
    match place {
        Some(path) => seq![(path@, SCAN_DEPTH)],
        None => seq![],
    }
}

/// The roots at the usual places.
pub open spec fn usual_roots(places: UsualPlaces) -> Seq<(Seq<char>, usize)> {
    usual_root(places.program_files) + usual_root(places.program_files_x86) + usual_root(
        places.local_app_data,
    ) + usual_root(places.local_programs) + usual_root(places.program_data)
}

/// The directories in which users keep their programs, on all drives but the
/// system's.
pub open spec fn preferred_roots(drives: Seq<DriveFacts>) -> Seq<(Seq<char>, usize)>
    decreases drives.len(),
{
    if drives.len() == 0 {
        seq![]
    } else {
        preferred_roots(drives.drop_last()) + if is_other_mount(drives.last().mount@) {
            preferred_on(drives.last().program_dirs@)
        } else {
            seq![]
        }
    }
}

pub open spec fn preferred_on(dirs: Seq<String>) -> Seq<(Seq<char>, usize)> {
    dirs.map(|i: int, dir: String| (dir@, PREFERRED_SCAN_DEPTH))
}

/// All drives but the system's.
pub open spec fn drive_roots(drives: Seq<DriveFacts>) -> Seq<(Seq<char>, usize)>
    decreases drives.len(),
{
    if drives.len() == 0 {
        seq![]
    } else {
        drive_roots(drives.drop_last()) + if is_other_mount(drives.last().mount@) {
            seq![(drives.last().mount@, SCAN_DEPTH)]
        } else {
            seq![]
        }
    }
}

fn push_root(roots: &mut Vec<ScanRoot>, path: &String, depth: usize)
    ensures
        root_views(final(roots)@) == root_views(old(roots)@).push((path@, depth)),
{
    let root = ScanRoot { path: path.clone(), depth };
    roots.push(root);
    assert(root_views(roots@) =~= root_views(old(roots)@).push((path@, depth)));
}

fn push_usual(roots: &mut Vec<ScanRoot>, place: &Option<String>)
    ensures
        root_views(final(roots)@) == root_views(old(roots)@) + usual_root(*place),
{
    if let Some(path) = place {
        push_root(roots, path, SCAN_DEPTH);
    }
    assert(root_views(roots@) =~= root_views(old(roots)@) + usual_root(*place));
}

fn push_preferred(roots: &mut Vec<ScanRoot>, dirs: &Vec<String>)
    ensures
        root_views(final(roots)@) == root_views(old(roots)@) + preferred_on(dirs@),
{
    let mut i: usize = 0;
    assert(preferred_on(dirs@.take(0)) =~= Seq::empty());
    assert(root_views(roots@) + preferred_on(dirs@.take(0)) =~= root_views(roots@));
    while i < dirs.len()
        invariant
            i <= dirs@.len(),
            root_views(roots@) == root_views(old(roots)@) + preferred_on(dirs@.take(i as int)),
        decreases dirs@.len() - i,
    {
        push_root(roots, &dirs[i], PREFERRED_SCAN_DEPTH);
        assert(preferred_on(dirs@.take(i + 1)) =~= preferred_on(dirs@.take(i as int)).push(
            (dirs@[i as int]@, PREFERRED_SCAN_DEPTH),
        ));
        assert(root_views(roots@) =~= root_views(old(roots)@) + preferred_on(dirs@.take(i + 1)));
        i = i + 1;
    }
    assert(dirs@.take(i as int) =~= dirs@);
}

/// Where applications are searched for in the file system, in the order of
/// searching: the usual places, the directories in which users keep their
/// programs, and the other drives as a whole where they are not left out.
pub fn collect_filesystem_roots(
    places: &UsualPlaces,
    drives: &Vec<DriveFacts>,
    include_other_drives: bool,
) -> (r: Vec<ScanRoot>)
    ensures
        root_views(r@) == usual_roots(*places) + preferred_roots(drives@) + (
        if include_other_drives {
            drive_roots(drives@)
        } else {
            seq![]
        }),
{
    let mut roots: Vec<ScanRoot> = Vec::new();
    assert(root_views(roots@) =~= Seq::empty());
    push_usual(&mut roots, &places.program_files);
    push_usual(&mut roots, &places.program_files_x86);
    push_usual(&mut roots, &places.local_app_data);
    push_usual(&mut roots, &places.local_programs);
    push_usual(&mut roots, &places.program_data);
    let ghost usual = usual_roots(*places);
    assert(root_views(roots@) =~= usual);
    let mut i: usize = 0;
    assert(usual + preferred_roots(drives@.take(0)) =~= usual);
    while i < drives.len()
        invariant
            i <= drives@.len(),
            root_views(roots@) == usual + preferred_roots(drives@.take(i as int)),
        decreases drives@.len() - i,
    {
        let ghost before = preferred_roots(drives@.take(i as int));
        assert(drives@.take(i + 1).drop_last() =~= drives@.take(i as int));
        if is_other_drive(drives[i].mount.as_str()) {
            push_preferred(&mut roots, &drives[i].program_dirs);
        }
        assert(root_views(roots@) =~= usual + preferred_roots(drives@.take(i + 1)));
        i = i + 1;
    }
    assert(drives@.take(i as int) =~= drives@);
    let ghost nearer = usual + preferred_roots(drives@);
    if include_other_drives {
        let mut k: usize = 0;
        assert(nearer + drive_roots(drives@.take(0)) =~= nearer);
        while k < drives.len()
            invariant
                k <= drives@.len(),
                root_views(roots@) == nearer + drive_roots(drives@.take(k as int)),
            decreases drives@.len() - k,
        {
            assert(drives@.take(k + 1).drop_last() =~= drives@.take(k as int));
            if is_other_drive(drives[k].mount.as_str()) {
                push_root(&mut roots, &drives[k].mount, SCAN_DEPTH);
            }
            assert(root_views(roots@) =~= nearer + drive_roots(drives@.take(k + 1)));
            k = k + 1;
        }
        assert(drives@.take(k as int) =~= drives@);
    }
    assert(nearer + Seq::<(Seq<char>, usize)>::empty() =~= nearer);
    roots
}

/// Of the drives only others than the system's are searched as a whole.
pub proof fn law_system_drive_is_never_searched_whole(drives: Seq<DriveFacts>, i: int)
    requires
        0 <= i < drive_roots(drives).len(),
    ensures
        exists|k: int|
            0 <= k < drives.len() && (#[trigger] drives[k]).mount@ == drive_roots(drives)[i].0
                && is_other_mount(drives[k].mount@),
    decreases drives.len(),
{
    let front = drives.drop_last();
    if i < drive_roots(front).len() {
        law_system_drive_is_never_searched_whole(front, i);
        let k = choose|k: int|
            0 <= k < front.len() && (#[trigger] front[k]).mount@ == drive_roots(front)[i].0
                && is_other_mount(front[k].mount@);
        assert(drives[k] == front[k]);
    } else {
        assert(drives[drives.len() - 1] == drives.last());
    }
}

/// A file that may be an application's program.
#[derive(Debug)]
pub struct FileFacts {
    pub path: String,
    pub is_file: bool,
}

/// Whether a file is a program.
pub open spec fn is_program(file: FileFacts) -> bool {
    file.is_file && match path::last_extension(file.path@) {
        Some(extension) => text::ascii_lowercase(extension) == text::ascii_lowercase("exe"@),
        None => false,
    }
}

/// The path of the first program among the files, from one on.
pub open spec fn first_program(files: Seq<FileFacts>, i: int) -> Option<Seq<char>>
    decreases files.len() - i,
{
    if i >= files.len() || i < 0 {
        None
    } else if is_program(files[i]) {
        Some(files[i].path@)
    } else {
        first_program(files, i + 1)
    }
}

/// The program whose icon stands for an application that names none: the first
/// in its directory or, after it, in its subdirectories. A directory that holds
/// several applications has none.
pub fn find_fallback_exe(dir: &str, is_dir: bool, files: &Vec<FileFacts>) -> (r: Option<String>)
    ensures
        text::view_of(r) == if !is_dir || scan_rules::is_container(dir@) {
            None
        } else {
            first_program(files@, 0)
        },
{
    if !is_dir || is_container_directory(dir) {
        return None;
    }
    let mut i: usize = 0;
    while i < files.len()
        invariant
            i <= files@.len(),
            first_program(files@, 0) == first_program(files@, i as int),
        decreases files@.len() - i,
    {
        if files[i].is_file {
            if let Some(extension) = path::last_extension_of(files[i].path.as_str()) {
                if text::same_ignoring_ascii_case(extension.as_str(), "exe") {
                    return Some(files[i].path.clone());
                }
            }
        }
        i = i + 1;
    }
    None
}

} // verus!
