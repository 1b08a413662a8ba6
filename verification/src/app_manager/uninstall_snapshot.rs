//! What is there before and after an uninstallation, and the difference. Only
//! the names right under a few places are recorded.

#![verifier::loop_isolation(false)]

use vstd::prelude::*;

use super::registry::{below, hive_name, key_of, parse_registry_path, path_below, Hive};
use crate::list;
use crate::list::{copy_texts, has_text, holds_text};
use crate::text;
use crate::text::CharSet;

verus! {

/// How many names are recorded of one place at most.
pub const MAX_ENTRIES_PER_GROUP: usize = 2000;

/// How many places are recorded at most, besides the application's own.
pub const MAX_LOCATIONS: usize = 8;

/// The names right under a place.
#[derive(Debug)]
pub struct SnapshotLocation {
    /// How the place is called.
    pub label: String,
    pub path: String,
    pub entries: Vec<String>,
}

/// What is there before an uninstallation.
#[derive(Debug)]
pub struct UninstallSnapshot {
    pub app_name: String,
    pub install_location: String,
    /// Unix time in milliseconds.
    pub created_at: u64,
    pub locations: Vec<SnapshotLocation>,
    /// The application's registry key and those right below it.
    pub registry_keys: Vec<String>,
    /// The names of all entries of installed applications.
    pub uninstall_entries: Vec<String>,
}

/// How much a snapshot holds.
#[derive(Debug)]
pub struct SnapshotSummary {
    pub created_at: u64,
    pub location_count: usize,
    pub entry_count: usize,
    pub uninstall_entry_count: usize,
}

/// A name that is only there before, only after, or both times.
#[derive(Debug)]
pub struct SnapshotDiffEntry {
    /// The place that it is in.
    pub group: String,
    pub name: String,
    /// `certain` where the place is the application's own, else `uncertain`.
    pub confidence: String,
}

/// The difference between a snapshot and what is there now.
#[derive(Debug)]
pub struct UninstallSnapshotDiff {
    pub has_snapshot: bool,
    pub created_at: u64,
    pub appeared: Vec<SnapshotDiffEntry>,
    pub disappeared: Vec<SnapshotDiffEntry>,
    pub remaining: Vec<SnapshotDiffEntry>,
}

/// Names under which the system and other programs write all the time.
pub open spec fn volatile_names() -> Seq<&'static str> {
    seq![
        "temp",
        "tmp",
        "microsoft",
        "packages",
        "crashdumps",
        "d3dscache",
        "connecteddevicesplatform",
        "elevateddiagnostics",
    ]
}

/// Whether a name is recorded.
pub open spec fn is_recorded(name: Seq<char>) -> bool {
    name.len() > 0 && !text::among(volatile_names(), text::lowercase(name))
}

fn records(name: &str) -> (r: bool)
    ensures
        r == is_recorded(name@),
{
    let volatile = vec![
        "temp",
        "tmp",
        "microsoft",
        "packages",
        "crashdumps",
        "d3dscache",
        "connecteddevicesplatform",
        "elevateddiagnostics",
    ];
    assert(volatile@ =~= volatile_names());
    if name.is_empty() {
        return false;
    }
    let lower = text::to_lowercase(name);
    !text::is_among(&volatile, lower.as_str())
}

/// The names with one added, unless it is there or they are as many as are
/// recorded.
pub open spec fn with_name(names: Seq<Seq<char>>, name: Seq<char>) -> Seq<Seq<char>> {
    if names.len() >= MAX_ENTRIES_PER_GROUP || names.contains(name) {
        names
    } else {
        names.push(name)
    }
}

/// The first names of a list, each once. `all` says whether also those are
/// taken that are not recorded of a place.
pub open spec fn first_names(found: Seq<String>, all: bool) -> Seq<Seq<char>>
    decreases found.len(),
{
    if found.len() == 0 {
        seq![]
    } else {
        let before = first_names(found.drop_last(), all);
        if all || is_recorded(found.last()@) {
            with_name(before, found.last()@)
        } else {
            before
        }
    }
}

/// Whether a list holds the given texts, each once and in order.
pub open spec fn is_ordered_list(r: Seq<String>, names: Seq<Seq<char>>) -> bool {
    &&& forall|t: Seq<char>| #[trigger] holds_text(r, t) <==> names.contains(t)
    &&& forall|i: int, j: int|
        0 <= i < j < r.len() ==> text::text_before((#[trigger] r[i])@, (#[trigger] r[j])@)
}

fn take_names(found: &Vec<String>, all: bool) -> (r: Vec<String>)
    ensures
        is_ordered_list(r@, first_names(found@, all)),
{
    let mut names: Vec<String> = Vec::new();
    let mut i: usize = 0;
    assert(found@.take(0) =~= seq![]);
    assert(text::texts(names@) =~= seq![]);
    while i < found.len()
        invariant
            i <= found@.len(),
            text::texts(names@) == first_names(found@.take(i as int), all),
        decreases found@.len() - i,
    {
        assert(found@.take(i + 1).drop_last() =~= found@.take(i as int));
        assert(text::texts(names@).len() == names@.len());
        if all || records(found[i].as_str()) {
            proof {
                super::keywords::lemma_holds_is_contains(names@, found@[i as int]@);
            }
            if names.len() < MAX_ENTRIES_PER_GROUP && !has_text(&names, found[i].as_str()) {
                let name = found[i].clone();
                proof {
                    text::lemma_texts_push(names@, name);
                }
                names.push(name);
            }
        }
        i = i + 1;
    }
    assert(found@.take(i as int) =~= found@);
    let ghost taken = names@;
    let r = list::sorted_texts(names);
    assert forall|t: Seq<char>| #[trigger] holds_text(r@, t) <==> first_names(
        found@,
        all,
    ).contains(t) by {
        super::keywords::lemma_holds_is_contains(taken, t);
    }
    r
}

/// The names that are recorded of a place, in order, of those found there.
pub fn list_top_level_entries(found: &Vec<String>) -> (r: Vec<String>)
    ensures
        is_ordered_list(r@, first_names(found@, false)),
{
    take_names(found, false)
}

/// The names that are recorded of the entries of installed applications, in
/// order, of those found.
pub fn collect_uninstall_entry_names(found: &Vec<String>) -> (r: Vec<String>)
    ensures
        is_ordered_list(r@, first_names(found@, true)),
{
    take_names(found, true)
}

/// A place never holds a volatile name, nor more names than are recorded.
pub proof fn law_recorded_names_are_lasting(found: Seq<String>)
    ensures
        first_names(found, false).len() <= MAX_ENTRIES_PER_GROUP,
        forall|i: int|
            0 <= i < first_names(found, false).len() ==> is_recorded(
                #[trigger] first_names(found, false)[i],
            ),
    decreases found.len(),
{
    if found.len() > 0 {
        law_recorded_names_are_lasting(found.drop_last());
    }
}

/// The paths of a key and of the keys below it that are recorded.
pub open spec fn keys_with_children(key: Seq<char>, children: Seq<String>) -> Seq<Seq<char>>
    decreases children.len(),
{
    if children.len() == 0 {
        seq![key]
    } else {
        keys_with_children(key, children.drop_last()).push(below(key, children.last()@))
    }
}

/// The application's registry keys that are recorded: the key that is named and
/// the first of those below it. There are none where none is named or it cannot
/// be opened.
pub open spec fn recorded_keys(path: Option<Seq<char>>, children: Option<Vec<String>>) -> Seq<
    Seq<char>,
> {
    match path {
        Some(path) => {
            let plain = text::trimmed(path, CharSet::Whitespace);
            if plain.len() == 0 || key_of(plain) is None || children is None {
                seq![]
            } else {
                let key = key_of(plain)->0;
                let kept = if children->0@.len() <= MAX_ENTRIES_PER_GROUP {
                    children->0@
                } else {
                    children->0@.take(MAX_ENTRIES_PER_GROUP as int)
                };
                keys_with_children(below(hive_name(key.0)@, key.1), kept)
            }
        },
        None => seq![],
    }
}

/// The application's registry keys that are recorded. `children` are the names
/// of those below the named key; they are absent where it cannot be opened.
pub fn collect_registry_keys(path: Option<&str>, children: &Option<Vec<String>>) -> (r: Vec<String>)
    ensures
        text::texts(r@) == recorded_keys(text::str_view(path), *children),
{
    let mut keys: Vec<String> = Vec::new();
    assert(text::texts(keys@) =~= seq![]);
    let path = match path {
        Some(path) => path,
        None => {
            return keys;
        },
    };
    let plain = text::trim(path, CharSet::Whitespace);
    if plain.as_str().is_empty() {
        return keys;
    }
    let key = match parse_registry_path(plain.as_str()) {
        Some(key) => key,
        None => {
            return keys;
        },
    };
    let children = match children {
        Some(children) => children,
        None => {
            return keys;
        },
    };
    let name = match key.hive {
        Hive::LocalMachine => "HKLM",
        Hive::CurrentUser => "HKCU",
    };
    let full = path_below(name, key.path.as_str());
    let n: usize = if children.len() <= MAX_ENTRIES_PER_GROUP {
        children.len()
    } else {
        MAX_ENTRIES_PER_GROUP
    };
    let ghost kept = children@.take(n as int);
    assert(children@.len() <= MAX_ENTRIES_PER_GROUP ==> kept =~= children@);
    keys.push(full.clone());
    let mut i: usize = 0;
    assert(text::texts(keys@) =~= keys_with_children(full@, kept.take(0)));
    while i < n
        invariant
            i <= n <= children@.len(),
            kept == children@.take(n as int),
            text::texts(keys@) == keys_with_children(full@, kept.take(i as int)),
        decreases n - i,
    {
        assert(kept.take(i + 1).drop_last() =~= kept.take(i as int));
        let child = path_below(full.as_str(), children[i].as_str());
        proof {
            text::lemma_texts_push(keys@, child);
        }
        keys.push(child);
        i = i + 1;
    }
    assert(kept.take(i as int) =~= kept);
    keys
}

/// A place that exists, and the names that were found right under it.
#[derive(Debug)]
pub struct ListedPlace {
    pub label: String,
    pub path: String,
    pub found: Vec<String>,
}

/// Whether a location records a place.
pub open spec fn is_location(location: SnapshotLocation, place: ListedPlace) -> bool {
    &&& location.label@ == place.label@
    &&& location.path@ == place.path@
    &&& is_ordered_list(location.entries@, first_names(place.found@, false))
}

/// The label of the application's own place.
pub const INSTALL_LABEL: &'static str = "安装目录";

/// The place without surrounding blanks; empty where there is none.
pub open spec fn plain_place(location: Option<Seq<char>>) -> Seq<char> {
    match location {
        Some(location) => text::trimmed(location, CharSet::Whitespace),
        None => seq![],
    }
}

fn record_place(place: &ListedPlace) -> (r: SnapshotLocation)
    ensures
        is_location(r, *place),
{
    SnapshotLocation {
        label: place.label.clone(),
        path: place.path.clone(),
        entries: list_top_level_entries(&place.found),
    }
}

/// What a snapshot is made from.
#[derive(Debug)]
pub struct SnapshotFacts {
    /// Unix time in milliseconds.
    pub now: u64,
    /// The common places that exist.
    pub places: Vec<ListedPlace>,
    /// The names right under the application's own place; absent where it is no
    /// directory.
    pub install_found: Option<Vec<String>>,
    /// The names of the keys below the application's own; absent where that
    /// cannot be opened.
    pub key_children: Option<Vec<String>>,
    /// The names of all entries of installed applications.
    pub uninstall_names: Vec<String>,
}

/// The number of common places that are recorded.
pub open spec fn place_count(facts: SnapshotFacts) -> int {
    if facts.places@.len() <= MAX_LOCATIONS {
        facts.places@.len() as int
    } else {
        MAX_LOCATIONS as int
    }
}

/// Whether a snapshot records what is there: the common places, then the
/// application's own where it is a directory, its registry keys and all entries.
pub open spec fn is_snapshot(
    snapshot: UninstallSnapshot,
    app_name: Seq<char>,
    install_location: Option<Seq<char>>,
    registry_path: Option<Seq<char>>,
    facts: SnapshotFacts,
) -> bool {
    let n = place_count(facts);
    let place = plain_place(install_location);
    let has_own = place.len() > 0 && facts.install_found is Some;
    &&& snapshot.app_name@ == app_name
    &&& snapshot.install_location@ == place
    &&& snapshot.created_at == facts.now
    &&& snapshot.locations@.len() == n + if has_own {
        1int
    } else {
        0
    }
    &&& forall|i: int|
        0 <= i < n ==> is_location(#[trigger] snapshot.locations@[i], facts.places@[i])
    &&& has_own ==> snapshot.locations@[n].label@ == INSTALL_LABEL@ && snapshot.locations@[n].path@
        == place && is_ordered_list(
        snapshot.locations@[n].entries@,
        first_names(facts.install_found->0@, false),
    )
    &&& text::texts(snapshot.registry_keys@) == recorded_keys(registry_path, facts.key_children)
    &&& is_ordered_list(snapshot.uninstall_entries@, first_names(facts.uninstall_names@, true))
}

/// Records what is there before an uninstallation.
pub fn collect_snapshot(
    app_name: &str,
    install_location: Option<&str>,
    registry_path: Option<&str>,
    facts: &SnapshotFacts,
) -> (r: UninstallSnapshot)
    ensures
        is_snapshot(
            r,
            app_name@,
            text::str_view(install_location),
            text::str_view(registry_path),
            *facts,
        ),
{
    let mut locations: Vec<SnapshotLocation> = Vec::new();
    let mut i: usize = 0;
    while i < facts.places.len() && i < MAX_LOCATIONS
        invariant
            i <= place_count(*facts),
            locations@.len() == i,
            forall|j: int|
                0 <= j < i ==> is_location(#[trigger] locations@[j], facts.places@[j]),
        decreases facts.places@.len() - i,
    {
        locations.push(record_place(&facts.places[i]));
        i = i + 1;
    }
    let place = match install_location {
        Some(location) => text::trim(location, CharSet::Whitespace),
        None => String::new(),
    };
    assert(place@ =~= plain_place(text::str_view(install_location)));
    if !place.as_str().is_empty() {
        if let Some(found) = &facts.install_found {
            locations.push(
                SnapshotLocation {
                    label: INSTALL_LABEL.to_owned(),
                    path: place.clone(),
                    entries: list_top_level_entries(found),
                },
            );
        }
    }
    UninstallSnapshot {
        app_name: app_name.to_owned(),
        install_location: place,
        created_at: facts.now,
        locations,
        registry_keys: collect_registry_keys(registry_path, &facts.key_children),
        uninstall_entries: collect_uninstall_entry_names(&facts.uninstall_names),
    }
}

/// The number of names in places.
pub open spec fn entry_total(locations: Seq<SnapshotLocation>) -> nat
    decreases locations.len(),
{
    if locations.len() == 0 {
        0
    } else {
        entry_total(locations.drop_last()) + locations.last().entries@.len()
    }
}

proof fn lemma_entry_total_grows(locations: Seq<SnapshotLocation>, n: int)
    requires
        0 <= n <= locations.len(),
    ensures
        entry_total(locations.take(n)) <= entry_total(locations),
    decreases locations.len(),
{
    if n == locations.len() {
        assert(locations.take(n) =~= locations);
    } else {
        lemma_entry_total_grows(locations.drop_last(), n);
        assert(locations.drop_last().take(n) =~= locations.take(n));
    }
}

/// How much a snapshot holds.
pub fn summarize(snapshot: &UninstallSnapshot) -> (r: SnapshotSummary)
    requires
        entry_total(snapshot.locations@) <= usize::MAX,
    ensures
        r.created_at == snapshot.created_at,
        r.location_count == snapshot.locations@.len(),
        r.entry_count == entry_total(snapshot.locations@),
        r.uninstall_entry_count == snapshot.uninstall_entries@.len(),
{
    let mut entry_count: usize = 0;
    let mut i: usize = 0;
    let ghost all = snapshot.locations@;
    assert(all.take(0) =~= seq![]);
    while i < snapshot.locations.len()
        invariant
            i <= all.len(),
            all == snapshot.locations@,
            entry_total(all) <= usize::MAX,
            entry_count == entry_total(all.take(i as int)),
        decreases all.len() - i,
    {
        assert(all.take(i + 1).drop_last() =~= all.take(i as int));
        proof {
            lemma_entry_total_grows(all, i + 1);
        }
        entry_count = entry_count + snapshot.locations[i].entries.len();
        i = i + 1;
    }
    assert(all.take(i as int) =~= all);
    SnapshotSummary {
        created_at: snapshot.created_at,
        location_count: snapshot.locations.len(),
        entry_count,
        uninstall_entry_count: snapshot.uninstall_entries.len(),
    }
}

/// Whether a list holds a name, but for case.
pub open spec fn has_name(names: Seq<String>, name: Seq<char>) -> bool {
    exists|i: int|
        0 <= i < names.len() && text::lowercase((#[trigger] names[i])@) == text::lowercase(name)
}

pub open spec fn is_in(names: Seq<String>) -> spec_fn(String) -> bool {
    |name: String| has_name(names, name@)
}

pub open spec fn is_not_in(names: Seq<String>) -> spec_fn(String) -> bool {
    |name: String| !has_name(names, name@)
}

fn holds_name(names: &Vec<String>, name: &str) -> (r: bool)
    ensures
        r == has_name(names@, name@),
{
    let lower = text::to_lowercase(name);
    let mut i: usize = 0;
    while i < names.len()
        invariant
            i <= names@.len(),
            forall|j: int| 0 <= j < i ==> text::lowercase((#[trigger] names@[j])@) != lower@,
        decreases names@.len() - i,
    {
        let there = text::to_lowercase(names[i].as_str());
        if text::same(there.as_str(), lower.as_str()) {
            return true;
        }
        i = i + 1;
    }
    false
}

fn select_names(names: &Vec<String>, others: &Vec<String>, inside: bool) -> (r: Vec<String>)
    ensures
        r@ == if inside {
            names@.filter(is_in(others@))
        } else {
            names@.filter(is_not_in(others@))
        },
{
    let ghost pred = if inside {
        is_in(others@)
    } else {
        is_not_in(others@)
    };
    let mut r: Vec<String> = Vec::new();
    let mut i: usize = 0;
    proof {
        reveal(Seq::filter);
    }
    assert(r@ =~= names@.take(0).filter(pred));
    while i < names.len()
        invariant
            i <= names@.len(),
            r@ == names@.take(i as int).filter(pred),
            pred == if inside {
                is_in(others@)
            } else {
                is_not_in(others@)
            },
        decreases names@.len() - i,
    {
        assert(names@.take(i + 1).drop_last() =~= names@.take(i as int));
        proof {
            reveal(Seq::filter);
        }
        if holds_name(others, names[i].as_str()) == inside {
            r.push(names[i].clone());
        }
        i = i + 1;
    }
    assert(names@.take(i as int) =~= names@);
    r
}

/// What appeared, what disappeared and what remained, by names without regard
/// to case. What remained bears its name of before.
pub fn diff_names(before: &Vec<String>, after: &Vec<String>) -> (r: (
    Vec<String>,
    Vec<String>,
    Vec<String>,
))
    ensures
        r.0@ == after@.filter(is_not_in(before@)),
        r.1@ == before@.filter(is_not_in(after@)),
        r.2@ == before@.filter(is_in(after@)),
{
    let appeared = select_names(after, before, false);
    let disappeared = select_names(before, after, false);
    let remaining = select_names(before, after, true);
    (appeared, disappeared, remaining)
}

/// Every name of before has either disappeared or remained, and every name of
/// after that was not there before has appeared.
pub proof fn law_difference_is_complete(before: Seq<String>, after: Seq<String>, i: int)
    ensures
        0 <= i < before.len() ==> (before.filter(is_not_in(after)).contains(before[i])
            != before.filter(is_in(after)).contains(before[i])),
        0 <= i < after.len() ==> (after.filter(is_not_in(before)).contains(after[i]) <==> !has_name(
            before,
            after[i]@,
        )),
{
    if 0 <= i < before.len() {
        let name = before[i];
        if has_name(after, name@) {
            before.lemma_filter_contains(is_in(after), i);
            lemma_filtered_fits(before, is_not_in(after), name);
        } else {
            before.lemma_filter_contains(is_not_in(after), i);
            lemma_filtered_fits(before, is_in(after), name);
        }
    }
    if 0 <= i < after.len() {
        if !has_name(before, after[i]@) {
            after.lemma_filter_contains(is_not_in(before), i);
        } else {
            lemma_filtered_fits(after, is_not_in(before), after[i]);
        }
    }
}

proof fn lemma_filtered_fits(names: Seq<String>, pred: spec_fn(String) -> bool, name: String)
    ensures
        names.filter(pred).contains(name) ==> pred(name),
{
    if names.filter(pred).contains(name) {
        let j = choose|j: int| 0 <= j < names.filter(pred).len() && names.filter(pred)[j] == name;
        names.lemma_filter_pred(pred, j);
    }
}

/// A name of the difference, as a value.
#[verifier::ext_equal]
pub struct DiffEntryView {
    pub group: Seq<char>,
    pub name: Seq<char>,
    pub confidence: Seq<char>,
}

impl View for SnapshotDiffEntry {
    type V = DiffEntryView;

    open spec fn view(&self) -> DiffEntryView {
        DiffEntryView { group: self.group@, name: self.name@, confidence: self.confidence@ }
    }
}

pub open spec fn diff_views(v: Seq<SnapshotDiffEntry>) -> Seq<DiffEntryView> {
    Seq::new(v.len(), |i: int| v[i]@)
}

pub open spec fn entries_of(group: Seq<char>, names: Seq<String>, confidence: Seq<char>) -> Seq<
    DiffEntryView,
> {
    Seq::new(names.len(), |i: int| DiffEntryView { group, name: names[i]@, confidence })
}

fn add_entries(
    entries: &mut Vec<SnapshotDiffEntry>,
    group: &str,
    names: &Vec<String>,
    confidence: &str,
)
    ensures
        diff_views(final(entries)@) == diff_views(old(entries)@) + entries_of(
            group@,
            names@,
            confidence@,
        ),
{
    let ghost start = diff_views(entries@);
    let ghost new = entries_of(group@, names@, confidence@);
    let mut i: usize = 0;
    assert(diff_views(entries@) =~= start + new.take(0));
    while i < names.len()
        invariant
            i <= names@.len(),
            diff_views(entries@) == start + new.take(i as int),
        decreases names@.len() - i,
    {
        let ghost before = diff_views(entries@);
        let entry = SnapshotDiffEntry {
            group: group.to_owned(),
            name: names[i].clone(),
            confidence: confidence.to_owned(),
        };
        entries.push(entry);
        assert(diff_views(entries@) =~= before.push(entry@));
        i = i + 1;
        assert(diff_views(entries@) =~= start + new.take(i as int));
    }
    assert(new.take(i as int) =~= new);
}

/// The difference, as a value.
#[verifier::ext_equal]
pub struct DiffView {
    pub has_snapshot: bool,
    pub created_at: u64,
    pub appeared: Seq<DiffEntryView>,
    pub disappeared: Seq<DiffEntryView>,
    pub remaining: Seq<DiffEntryView>,
}

impl DiffView {
    /// The difference with that of one group added.
    pub open spec fn with_group(
        self,
        group: Seq<char>,
        before: Seq<String>,
        after: Seq<String>,
        confidence: Seq<char>,
    ) -> DiffView {
        DiffView {
            appeared: self.appeared + entries_of(
                group,
                after.filter(is_not_in(before)),
                confidence,
            ),
            disappeared: self.disappeared + entries_of(
                group,
                before.filter(is_not_in(after)),
                confidence,
            ),
            remaining: self.remaining + entries_of(
                group,
                before.filter(is_in(after)),
                confidence,
            ),
            ..self
        }
    }
}

impl View for UninstallSnapshotDiff {
    type V = DiffView;

    open spec fn view(&self) -> DiffView {
        DiffView {
            has_snapshot: self.has_snapshot,
            created_at: self.created_at,
            appeared: diff_views(self.appeared@),
            disappeared: diff_views(self.disappeared@),
            remaining: diff_views(self.remaining@),
        }
    }
}

impl UninstallSnapshotDiff {
    fn add_group(&mut self, group: &str, before: &Vec<String>, after: &Vec<String>, confidence: &str)
        ensures
            final(self)@ == old(self)@.with_group(group@, before@, after@, confidence@),
    {
        let (appeared, disappeared, remaining) = diff_names(before, after);
        add_entries(&mut self.appeared, group, &appeared, confidence);
        add_entries(&mut self.disappeared, group, &disappeared, confidence);
        add_entries(&mut self.remaining, group, &remaining, confidence);
    }
}

/// What is there now: the common places, the names in the application's own
/// place, its registry keys and all entries, as they are recorded.
#[derive(Debug)]
pub struct CurrentState {
    pub places: Vec<SnapshotLocation>,
    pub install_entries: Vec<String>,
    pub registry_keys: Vec<String>,
    pub uninstall_entries: Vec<String>,
}

/// The position of the place with a label, or the number of places.
pub open spec fn place_position(places: Seq<SnapshotLocation>, label: Seq<char>, i: int) -> int
    decreases places.len() - i,
{
    if i >= places.len() || i < 0 || places[i].label@ == label {
        i
    } else {
        place_position(places, label, i + 1)
    }
}

/// The names that are now in the place of a location.
pub open spec fn names_now(location: SnapshotLocation, now: CurrentState) -> Seq<String> {
    if location.label@ == INSTALL_LABEL@ {
        now.install_entries@
    } else {
        let at = place_position(now.places@, location.label@, 0);
        if at < now.places@.len() {
            now.places@[at].entries@
        } else {
            seq![]
        }
    }
}

pub open spec fn confidence_of(location: SnapshotLocation) -> Seq<char> {
    if location.label@ == INSTALL_LABEL@ {
        "certain"@
    } else {
        "uncertain"@
    }
}

/// A difference in which nothing stands.
pub open spec fn no_difference(has_snapshot: bool, created_at: u64) -> DiffView {
    DiffView {
        has_snapshot,
        created_at,
        appeared: seq![],
        disappeared: seq![],
        remaining: seq![],
    }
}

/// The difference in the places of a snapshot, in order.
pub open spec fn difference_of_places(
    created_at: u64,
    locations: Seq<SnapshotLocation>,
    now: CurrentState,
) -> DiffView
    decreases locations.len(),
{
    if locations.len() == 0 {
        no_difference(true, created_at)
    } else {
        let location = locations.last();
        difference_of_places(created_at, locations.drop_last(), now).with_group(
            location.label@,
            location.entries@,
            names_now(location, now),
            confidence_of(location),
        )
    }
}

/// The difference between a snapshot and what is there now.
pub open spec fn difference(snapshot: UninstallSnapshot, now: CurrentState) -> DiffView {
    let places = difference_of_places(snapshot.created_at, snapshot.locations@, now);
    let keys = if snapshot.registry_keys@.len() > 0 {
        places.with_group(
            "应用注册表键"@,
            snapshot.registry_keys@,
            now.registry_keys@,
            "certain"@,
        )
    } else {
        places
    };
    keys.with_group(
        "卸载登记项"@,
        snapshot.uninstall_entries@,
        now.uninstall_entries@,
        "uncertain"@,
    )
}

fn current_names(location: &SnapshotLocation, now: &CurrentState) -> (r: Vec<String>)
    ensures
        r@ == names_now(*location, *now),
{
    if text::same(location.label.as_str(), INSTALL_LABEL) {
        return copy_texts(&now.install_entries);
    }
    let mut i: usize = 0;
    while i < now.places.len()
        invariant
            i <= now.places@.len(),
            place_position(now.places@, location.label@, 0) == place_position(
                now.places@,
                location.label@,
                i as int,
            ),
        decreases now.places@.len() - i,
    {
        if text::same(now.places[i].label.as_str(), location.label.as_str()) {
            return copy_texts(&now.places[i].entries);
        }
        i = i + 1;
    }
    let none: Vec<String> = Vec::new();
    assert(none@ =~= seq![]);
    none
}

/// The difference between a snapshot and what is there now.
pub fn compute_diff(snapshot: &UninstallSnapshot, now: &CurrentState) -> (r: UninstallSnapshotDiff)
    ensures
        r@ == difference(*snapshot, *now),
{
    let mut diff = UninstallSnapshotDiff {
        has_snapshot: true,
        created_at: snapshot.created_at,
        appeared: Vec::new(),
        disappeared: Vec::new(),
        remaining: Vec::new(),
    };
    let ghost all = snapshot.locations@;
    let mut i: usize = 0;
    assert(all.take(0) =~= seq![]);
    assert(diff@ =~= difference_of_places(snapshot.created_at, all.take(0), *now));
    while i < snapshot.locations.len()
        invariant
            i <= all.len(),
            all == snapshot.locations@,
            diff@ == difference_of_places(snapshot.created_at, all.take(i as int), *now),
        decreases all.len() - i,
    {
        assert(all.take(i + 1).drop_last() =~= all.take(i as int));
        let location = &snapshot.locations[i];
        let names = current_names(location, now);
        if text::same(location.label.as_str(), INSTALL_LABEL) {
            diff.add_group(location.label.as_str(), &location.entries, &names, "certain");
        } else {
            diff.add_group(location.label.as_str(), &location.entries, &names, "uncertain");
        }
        i = i + 1;
    }
    assert(all.take(i as int) =~= all);
    if snapshot.registry_keys.len() > 0 {
        diff.add_group("应用注册表键", &snapshot.registry_keys, &now.registry_keys, "certain");
    }
    diff.add_group(
        "卸载登记项",
        &snapshot.uninstall_entries,
        &now.uninstall_entries,
        "uncertain",
    );
    diff
}

/// The difference between the last snapshot, if there is one, and what is there
/// now.
pub fn diff_uninstall_snapshot(snapshot: Option<&UninstallSnapshot>, now: &CurrentState) -> (r:
    UninstallSnapshotDiff)
    ensures
        r@ == match snapshot {
            Some(snapshot) => difference(*snapshot, *now),
            None => no_difference(false, 0),
        },
{
    match snapshot {
        Some(snapshot) => compute_diff(snapshot, now),
        None => {
            let none = UninstallSnapshotDiff {
                has_snapshot: false,
                created_at: 0,
                appeared: Vec::new(),
                disappeared: Vec::new(),
                remaining: Vec::new(),
            };
            assert(none@ =~= no_difference(false, 0));
            none
        },
    }
}

} // verus!
