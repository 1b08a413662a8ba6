//! What is promised of what is reported after an application was removed: what
//! became of every name that a snapshot recorded, and which services and tasks
//! are still there.

use vstd::prelude::*;

use super::detector::{plain_app_name, processes_of};
use super::traces::{
    found_traces, holds_token, is_report, is_trace, ordered, service_trace, with_children,
    with_services, with_task_files, with_task_groups, OrderedTrace, ServiceFacts, SystemTrace,
    TaskGroup, TraceFacts, TraceView, MAX_TRACES,
};
use super::uninstall_snapshot::{
    confidence_of, difference, difference_of_places, entries_of, has_name, is_in, is_not_in,
    names_now, place_position, CurrentState, DiffEntryView, DiffView, SnapshotLocation,
    UninstallSnapshot, INSTALL_LABEL,
};
use crate::list::{is_stable_rearrangement, is_stable_sort, lemma_every_position_occurs};
use crate::text;

verus! {

/// Whether a text is none of the names, but for case.
pub open spec fn is_none_of(names: Seq<String>, name: Seq<char>) -> bool {
    forall|i: int|
        0 <= i < names.len() ==> text::lowercase((#[trigger] names[i])@) != text::lowercase(name)
}

/// Whether a difference tells of every name of a group what became of it: it is
/// gone, it is still there, or it is new.
pub open spec fn tells_of_group(
    diff: DiffView,
    group: Seq<char>,
    before: Seq<String>,
    after: Seq<String>,
    confidence: Seq<char>,
) -> bool {
    &&& forall|i: int|
        0 <= i < before.len() && is_none_of(after, (#[trigger] before[i])@)
            ==> diff.disappeared.contains(DiffEntryView { group, name: before[i]@, confidence })
    &&& forall|i: int|
        0 <= i < before.len() && !is_none_of(after, (#[trigger] before[i])@)
            ==> diff.remaining.contains(DiffEntryView { group, name: before[i]@, confidence })
    &&& forall|i: int|
        0 <= i < after.len() && is_none_of(before, (#[trigger] after[i])@)
            ==> diff.appeared.contains(DiffEntryView { group, name: after[i]@, confidence })
}

proof fn lemma_selected(
    group: Seq<char>,
    names: Seq<String>,
    pred: spec_fn(String) -> bool,
    confidence: Seq<char>,
    i: int,
)
    requires
        0 <= i < names.len(),
        pred(names[i]),
    ensures
        entries_of(group, names.filter(pred), confidence).contains(
            DiffEntryView { group, name: names[i]@, confidence },
        ),
{
    let kept = names.filter(pred);
    names.lemma_filter_contains(pred, i);
    let j = choose|j: int| 0 <= j < kept.len() && kept[j] == names[i];
    assert(entries_of(group, kept, confidence)[j] == (DiffEntryView {
        group,
        name: names[i]@,
        confidence,
    }));
}

proof fn lemma_in_either<T>(a: Seq<T>, b: Seq<T>, x: T)
    requires
        a.contains(x) || b.contains(x),
    ensures
        (a + b).contains(x),
{
    if a.contains(x) {
        let i = choose|i: int| 0 <= i < a.len() && a[i] == x;
        assert((a + b)[i] == x);
    } else {
        let i = choose|i: int| 0 <= i < b.len() && b[i] == x;
        assert((a + b)[a.len() + i] == x);
    }
}

/// The difference with a group added tells of every name of the group, and of
/// all that was told before.
pub proof fn law_added_group_is_told(
    diff: DiffView,
    group: Seq<char>,
    before: Seq<String>,
    after: Seq<String>,
    confidence: Seq<char>,
)
    ensures
        tells_of_group(
            diff.with_group(group, before, after, confidence),
            group,
            before,
            after,
            confidence,
        ),
        forall|e: DiffEntryView| #[trigger]
            diff.appeared.contains(e) ==> diff.with_group(
                group,
                before,
                after,
                confidence,
            ).appeared.contains(e),
        forall|e: DiffEntryView| #[trigger]
            diff.disappeared.contains(e) ==> diff.with_group(
                group,
                before,
                after,
                confidence,
            ).disappeared.contains(e),
        forall|e: DiffEntryView| #[trigger]
            diff.remaining.contains(e) ==> diff.with_group(
                group,
                before,
                after,
                confidence,
            ).remaining.contains(e),
{
    let whole = diff.with_group(group, before, after, confidence);
    let new = entries_of(group, after.filter(is_not_in(before)), confidence);
    let gone = entries_of(group, before.filter(is_not_in(after)), confidence);
    let kept = entries_of(group, before.filter(is_in(after)), confidence);
    assert forall|i: int|
        0 <= i < before.len() && is_none_of(after, (#[trigger] before[i])@) implies
        whole.disappeared.contains(DiffEntryView { group, name: before[i]@, confidence }) by {
        assert(!has_name(after, before[i]@));
        lemma_selected(group, before, is_not_in(after), confidence, i);
        lemma_in_either(
            diff.disappeared,
            gone,
            DiffEntryView { group, name: before[i]@, confidence },
        );
    }
    assert forall|i: int|
        0 <= i < before.len() && !is_none_of(after, (#[trigger] before[i])@) implies
        whole.remaining.contains(DiffEntryView { group, name: before[i]@, confidence }) by {
        assert(has_name(after, before[i]@));
        lemma_selected(group, before, is_in(after), confidence, i);
        lemma_in_either(
            diff.remaining,
            kept,
            DiffEntryView { group, name: before[i]@, confidence },
        );
    }
    assert forall|i: int|
        0 <= i < after.len() && is_none_of(before, (#[trigger] after[i])@) implies
        whole.appeared.contains(DiffEntryView { group, name: after[i]@, confidence }) by {
        assert(!has_name(before, after[i]@));
        lemma_selected(group, after, is_not_in(before), confidence, i);
        lemma_in_either(diff.appeared, new, DiffEntryView { group, name: after[i]@, confidence });
    }
    assert forall|e: DiffEntryView| #[trigger] diff.appeared.contains(e) implies
        whole.appeared.contains(e) by {
        lemma_in_either(diff.appeared, new, e);
    }
    assert forall|e: DiffEntryView| #[trigger] diff.disappeared.contains(e) implies
        whole.disappeared.contains(e) by {
        lemma_in_either(diff.disappeared, gone, e);
    }
    assert forall|e: DiffEntryView| #[trigger] diff.remaining.contains(e) implies
        whole.remaining.contains(e) by {
        lemma_in_either(diff.remaining, kept, e);
    }
}

/// What a group tells is still told once another one was added.
proof fn lemma_still_told(
    diff: DiffView,
    group: Seq<char>,
    before: Seq<String>,
    after: Seq<String>,
    confidence: Seq<char>,
    other: Seq<char>,
    other_before: Seq<String>,
    other_after: Seq<String>,
    other_confidence: Seq<char>,
)
    requires
        tells_of_group(diff, group, before, after, confidence),
    ensures
        tells_of_group(
            diff.with_group(other, other_before, other_after, other_confidence),
            group,
            before,
            after,
            confidence,
        ),
{
    law_added_group_is_told(diff, other, other_before, other_after, other_confidence);
}

proof fn lemma_place_is_told(
    created_at: u64,
    locations: Seq<SnapshotLocation>,
    now: CurrentState,
    k: int,
    after: Seq<String>,
    confidence: Seq<char>,
)
    requires
        0 <= k < locations.len(),
        names_now(locations[k], now) == after,
        confidence_of(locations[k]) == confidence,
    ensures
        tells_of_group(
            difference_of_places(created_at, locations, now),
            locations[k].label@,
            locations[k].entries@,
            after,
            confidence,
        ),
    decreases locations.len(),
{
    let last = locations.last();
    let earlier = difference_of_places(created_at, locations.drop_last(), now);
    let last_confidence = confidence_of(last);
    if k == locations.len() - 1 {
        law_added_group_is_told(
            earlier,
            last.label@,
            last.entries@,
            names_now(last, now),
            last_confidence,
        );
    } else {
        lemma_place_is_told(created_at, locations.drop_last(), now, k, after, confidence);
        lemma_still_told(
            earlier,
            locations[k].label@,
            locations[k].entries@,
            after,
            confidence,
            last.label@,
            last.entries@,
            names_now(last, now),
            last_confidence,
        );
    }
}

proof fn lemma_told_of_places_is_told(
    snapshot: UninstallSnapshot,
    now: CurrentState,
    group: Seq<char>,
    before: Seq<String>,
    after: Seq<String>,
    confidence: Seq<char>,
)
    requires
        tells_of_group(
            difference_of_places(snapshot.created_at, snapshot.locations@, now),
            group,
            before,
            after,
            confidence,
        ),
    ensures
        tells_of_group(difference(snapshot, now), group, before, after, confidence),
{
    let places = difference_of_places(snapshot.created_at, snapshot.locations@, now);
    let keys = places.with_group(
        "应用注册表键"@,
        snapshot.registry_keys@,
        now.registry_keys@,
        "certain"@,
    );
    lemma_still_told(
        places,
        group,
        before,
        after,
        confidence,
        "应用注册表键"@,
        snapshot.registry_keys@,
        now.registry_keys@,
        "certain"@,
    );
    let middle = if snapshot.registry_keys@.len() > 0 {
        keys
    } else {
        places
    };
    lemma_still_told(
        middle,
        group,
        before,
        after,
        confidence,
        "卸载登记项"@,
        snapshot.uninstall_entries@,
        now.uninstall_entries@,
        "uncertain"@,
    );
}

/// Of every name in the application's own place it is told for certain what
/// became of it.
pub proof fn law_own_place_is_told_for_certain(
    snapshot: UninstallSnapshot,
    now: CurrentState,
    k: int,
)
    requires
        0 <= k < snapshot.locations@.len(),
        snapshot.locations@[k].label@ == INSTALL_LABEL@,
    ensures
        tells_of_group(
            difference(snapshot, now),
            INSTALL_LABEL@,
            snapshot.locations@[k].entries@,
            now.install_entries@,
            "certain"@,
        ),
{
    lemma_place_is_told(
        snapshot.created_at,
        snapshot.locations@,
        now,
        k,
        now.install_entries@,
        "certain"@,
    );
    lemma_told_of_places_is_told(
        snapshot,
        now,
        INSTALL_LABEL@,
        snapshot.locations@[k].entries@,
        now.install_entries@,
        "certain"@,
    );
}

proof fn lemma_place_is_found(places: Seq<SnapshotLocation>, label: Seq<char>, j: int, i: int)
    requires
        0 <= i <= j < places.len(),
        places[j].label@ == label,
        forall|k: int| i <= k < j ==> (#[trigger] places[k]).label@ != label,
    ensures
        place_position(places, label, i) == j,
    decreases j - i,
{
    if i < j {
        assert(places[i].label@ != label);
        lemma_place_is_found(places, label, j, i + 1);
    }
}

/// Of every name in a common place it is told what became of it in the first
/// place of that label, though not for certain.
pub proof fn law_common_place_is_told(
    snapshot: UninstallSnapshot,
    now: CurrentState,
    k: int,
    j: int,
)
    requires
        0 <= k < snapshot.locations@.len(),
        snapshot.locations@[k].label@ != INSTALL_LABEL@,
        0 <= j < now.places@.len(),
        now.places@[j].label@ == snapshot.locations@[k].label@,
        forall|i: int|
            0 <= i < j ==> (#[trigger] now.places@[i]).label@ != snapshot.locations@[k].label@,
    ensures
        tells_of_group(
            difference(snapshot, now),
            snapshot.locations@[k].label@,
            snapshot.locations@[k].entries@,
            now.places@[j].entries@,
            "uncertain"@,
        ),
{
    lemma_place_is_found(now.places@, snapshot.locations@[k].label@, j, 0);
    lemma_place_is_told(
        snapshot.created_at,
        snapshot.locations@,
        now,
        k,
        now.places@[j].entries@,
        "uncertain"@,
    );
    lemma_told_of_places_is_told(
        snapshot,
        now,
        snapshot.locations@[k].label@,
        snapshot.locations@[k].entries@,
        now.places@[j].entries@,
        "uncertain"@,
    );
}

/// Of every recorded registry key of the application it is told for certain
/// what became of it, and of every entry of an application, though not for
/// certain.
pub proof fn law_keys_are_told(snapshot: UninstallSnapshot, now: CurrentState)
    ensures
        snapshot.registry_keys@.len() > 0 ==> tells_of_group(
            difference(snapshot, now),
            "应用注册表键"@,
            snapshot.registry_keys@,
            now.registry_keys@,
            "certain"@,
        ),
        tells_of_group(
            difference(snapshot, now),
            "卸载登记项"@,
            snapshot.uninstall_entries@,
            now.uninstall_entries@,
            "uncertain"@,
        ),
{
    let places = difference_of_places(snapshot.created_at, snapshot.locations@, now);
    let keys = places.with_group(
        "应用注册表键"@,
        snapshot.registry_keys@,
        now.registry_keys@,
        "certain"@,
    );
    law_added_group_is_told(
        places,
        "应用注册表键"@,
        snapshot.registry_keys@,
        now.registry_keys@,
        "certain"@,
    );
    if snapshot.registry_keys@.len() > 0 {
        lemma_still_told(
            keys,
            "应用注册表键"@,
            snapshot.registry_keys@,
            now.registry_keys@,
            "certain"@,
            "卸载登记项"@,
            snapshot.uninstall_entries@,
            now.uninstall_entries@,
            "uncertain"@,
        );
        law_added_group_is_told(
            keys,
            "卸载登记项"@,
            snapshot.uninstall_entries@,
            now.uninstall_entries@,
            "uncertain"@,
        );
    } else {
        law_added_group_is_told(
            places,
            "卸载登记项"@,
            snapshot.uninstall_entries@,
            now.uninstall_entries@,
            "uncertain"@,
        );
    }
}

/// The difference is that of the snapshot.
pub proof fn law_difference_bears_the_time(snapshot: UninstallSnapshot, now: CurrentState)
    ensures
        difference(snapshot, now).has_snapshot,
        difference(snapshot, now).created_at == snapshot.created_at,
{
    lemma_places_bear_the_time(snapshot.created_at, snapshot.locations@, now);
}

proof fn lemma_places_bear_the_time(
    created_at: u64,
    locations: Seq<SnapshotLocation>,
    now: CurrentState,
)
    ensures
        difference_of_places(created_at, locations, now).has_snapshot,
        difference_of_places(created_at, locations, now).created_at == created_at,
    decreases locations.len(),
{
    if locations.len() > 0 {
        lemma_places_bear_the_time(created_at, locations.drop_last(), now);
    }
}

/// A service of the type of a driver is told as a driver, any other one as a
/// service, each under its name.
pub proof fn law_service_is_told_by_its_type(service: ServiceFacts)
    ensures
        service.service_type == 1 || service.service_type == 2 ==> service_trace(service).kind
            == "driver"@,
        service.service_type != 1 && service.service_type != 2 ==> service_trace(service).kind
            == "service"@,
        service_trace(service).name == service.name@,
{
}

proof fn lemma_in_pushed<T>(s: Seq<T>, last: T, x: T)
    ensures
        s.contains(x) || x == last ==> s.push(last).contains(x),
{
    if s.contains(x) {
        let i = choose|i: int| 0 <= i < s.len() && s[i] == x;
        assert(s.push(last)[i] == x);
    } else if x == last {
        assert(s.push(last)[s.len() as int] == x);
    }
}

/// Every service that is the application's is found, as long as there are fewer
/// traces than are reported, and what was found before stays.
pub proof fn law_no_service_is_missing(
    traces: Seq<TraceView>,
    services: Seq<ServiceFacts>,
    tokens: Seq<String>,
    location: Option<Seq<char>>,
    system_root: Seq<char>,
)
    ensures
        forall|i: int|
            0 <= i < services.len() && is_trace(
                (#[trigger] services[i]).name@,
                services[i].display_name@,
                Some(services[i].image_path@),
                tokens,
                location,
                system_root,
            ) ==> with_services(traces, services, tokens, location, system_root).contains(
                service_trace(services[i]),
            ) || with_services(traces, services, tokens, location, system_root).len() >= MAX_TRACES,
        forall|t: TraceView| #[trigger]
            traces.contains(t) ==> with_services(
                traces,
                services,
                tokens,
                location,
                system_root,
            ).contains(t),
    decreases services.len(),
{
    if services.len() > 0 {
        let shorter = services.drop_last();
        let before = with_services(traces, shorter, tokens, location, system_root);
        let after = with_services(traces, services, tokens, location, system_root);
        let last = service_trace(services.last());
        law_no_service_is_missing(traces, shorter, tokens, location, system_root);
        assert forall|t: TraceView| #[trigger] before.contains(t) implies after.contains(t) by {
            lemma_in_pushed(before, last, t);
        }
        assert forall|i: int|
            0 <= i < services.len() && is_trace(
                (#[trigger] services[i]).name@,
                services[i].display_name@,
                Some(services[i].image_path@),
                tokens,
                location,
                system_root,
            ) implies after.contains(service_trace(services[i])) || after.len() >= MAX_TRACES by {
            if i < shorter.len() {
                assert(shorter[i] == services[i]);
            } else {
                lemma_in_pushed(before, last, last);
            }
        }
    }
}

/// Every task file that names the application is found, as long as there are
/// fewer traces than are reported, and what was found before stays.
pub proof fn law_no_task_file_is_missing(
    traces: Seq<TraceView>,
    files: Seq<String>,
    tokens: Seq<String>,
)
    ensures
        forall|i: int|
            0 <= i < files.len() && holds_token(
                text::lowercase(text::replaced((#[trigger] files[i])@, '/', '\\')),
                tokens,
            ) ==> with_task_files(traces, files, tokens).len() >= MAX_TRACES || (exists|j: int|
                0 <= j < with_task_files(traces, files, tokens).len() && (#[trigger] with_task_files(
                    traces,
                    files,
                    tokens,
                )[j]).kind == "task"@ && with_task_files(traces, files, tokens)[j].name == "\\"@
                    + text::replaced(files[i]@, '/', '\\')),
        forall|t: TraceView| #[trigger]
            traces.contains(t) ==> with_task_files(traces, files, tokens).contains(t),
    decreases files.len(),
{
    if files.len() > 0 {
        let shorter = files.drop_last();
        let before = with_task_files(traces, shorter, tokens);
        let after = with_task_files(traces, files, tokens);
        law_no_task_file_is_missing(traces, shorter, tokens);
        assert forall|j: int| 0 <= j < before.len() implies #[trigger] after[j] == before[j] by {}
        assert forall|t: TraceView| #[trigger] before.contains(t) implies after.contains(t) by {
            let j = choose|j: int| 0 <= j < before.len() && before[j] == t;
            assert(after[j] == t);
        }
        assert forall|i: int|
            0 <= i < files.len() && holds_token(
                text::lowercase(text::replaced((#[trigger] files[i])@, '/', '\\')),
                tokens,
            ) && after.len() < MAX_TRACES implies exists|j: int|
            0 <= j < after.len() && (#[trigger] after[j]).kind == "task"@ && after[j].name == "\\"@
                + text::replaced(files[i]@, '/', '\\') by {
            let name = "\\"@ + text::replaced(files[i]@, '/', '\\');
            if i < shorter.len() {
                assert(shorter[i] == files[i]);
                let j = choose|j: int|
                    0 <= j < before.len() && (#[trigger] before[j]).kind == "task"@
                        && before[j].name == name;
                assert(after[j] == before[j]);
            } else {
                let j = before.len() as int;
                assert(after[j].kind == "task"@ && after[j].name == name);
            }
        }
    }
}

/// Every task of a key that names the application is found, and what was found
/// before stays.
pub proof fn law_no_child_is_missing(
    traces: Seq<TraceView>,
    prefix: Seq<char>,
    children: Seq<String>,
    tokens: Seq<String>,
)
    ensures
        forall|i: int|
            0 <= i < children.len() && holds_token(
                text::lowercase((#[trigger] children[i])@),
                tokens,
            ) ==> (exists|j: int|
                0 <= j < with_children(traces, prefix, children, tokens).len() && (
                #[trigger] with_children(traces, prefix, children, tokens)[j]).kind == "task"@
                    && with_children(traces, prefix, children, tokens)[j].name == prefix + "\\"@
                    + children[i]@),
        traces.len() <= with_children(traces, prefix, children, tokens).len(),
        forall|j: int|
            0 <= j < traces.len() ==> #[trigger] with_children(traces, prefix, children, tokens)[j]
                == traces[j],
    decreases children.len(),
{
    if children.len() > 0 {
        let shorter = children.drop_last();
        let before = with_children(traces, prefix, shorter, tokens);
        let after = with_children(traces, prefix, children, tokens);
        law_no_child_is_missing(traces, prefix, shorter, tokens);
        assert forall|j: int| 0 <= j < before.len() implies #[trigger] after[j] == before[j] by {}
        assert forall|i: int|
            0 <= i < children.len() && holds_token(
                text::lowercase((#[trigger] children[i])@),
                tokens,
            ) implies exists|j: int|
            0 <= j < after.len() && (#[trigger] after[j]).kind == "task"@ && after[j].name == prefix
                + "\\"@ + children[i]@ by {
            let name = prefix + "\\"@ + children[i]@;
            if i < shorter.len() {
                assert(shorter[i] == children[i]);
                let j = choose|j: int|
                    0 <= j < before.len() && (#[trigger] before[j]).kind == "task"@
                        && before[j].name == name;
                assert(after[j] == before[j]);
            } else {
                let j = before.len() as int;
                assert(after[j].kind == "task"@ && after[j].name == name);
            }
        }
        assert forall|j: int| 0 <= j < traces.len() implies #[trigger] after[j] == traces[j] by {
            assert(before[j] == traces[j]);
        }
    }
}

/// The first of the keys of tasks that is searched with room left gives all its
/// tasks that name the application.
pub proof fn law_no_task_is_missing(
    traces: Seq<TraceView>,
    groups: Seq<TaskGroup>,
    tokens: Seq<String>,
    g: int,
    i: int,
)
    requires
        0 <= g < groups.len(),
        0 <= i < groups[g].children@.len(),
        holds_token(text::lowercase(groups[g].children@[i]@), tokens),
        with_task_groups(traces, groups, tokens).len() < MAX_TRACES,
    ensures
        exists|j: int|
            0 <= j < with_task_groups(traces, groups, tokens).len() && (
            #[trigger] with_task_groups(traces, groups, tokens)[j]).kind == "task"@
                && with_task_groups(traces, groups, tokens)[j].name == groups[g].prefix@ + "\\"@
                + groups[g].children@[i]@,
    decreases groups.len(),
{
    let shorter = groups.drop_last();
    let before = with_task_groups(traces, shorter, tokens);
    let after = with_task_groups(traces, groups, tokens);
    let group = groups.last();
    let name = groups[g].prefix@ + "\\"@ + groups[g].children@[i]@;
    law_no_child_is_missing(before, group.prefix@, group.children@, tokens);
    assert(before.len() < MAX_TRACES);
    if g < shorter.len() {
        assert(shorter[g] == groups[g]);
        law_no_task_is_missing(traces, shorter, tokens, g, i);
        let j = choose|j: int|
            0 <= j < before.len() && (#[trigger] before[j]).kind == "task"@ && before[j].name
                == name;
        assert(after[j] == before[j]);
    } else {
        assert(after == with_children(before, group.prefix@, group.children@, tokens));
    }
}

/// A report that is not full holds all that was found.
pub proof fn law_report_that_is_not_full_is_whole(
    found: Seq<SystemTrace>,
    r: Seq<SystemTrace>,
    i: int,
)
    requires
        is_report(found, r),
        r.len() < MAX_TRACES,
        0 <= i < found.len(),
    ensures
        r.contains(found[i]),
        r.len() == found.len(),
{
    let (keyed, sorted) = choose|keyed: Seq<OrderedTrace>, sorted: Seq<OrderedTrace>|
        ordered(found, keyed) && #[trigger] is_stable_sort(keyed, sorted) && r.len() == (
        if sorted.len() < MAX_TRACES {
            sorted.len() as int
        } else {
            MAX_TRACES as int
        }) && forall|i: int| 0 <= i < r.len() ==> #[trigger] r[i] == sorted[i].trace;
    let p = choose|p: Seq<int>| is_stable_rearrangement(keyed, sorted, p);
    lemma_every_position_occurs(p, keyed.len() as int, i);
    let j = choose|j: int| 0 <= j < p.len() && #[trigger] p[j] == i;
    assert(sorted[j] == keyed[p[j]]);
    assert(keyed[i].trace == found[i]);
    assert(r[j] == sorted[j].trace);
}

/// A service that is the application's is found by its name or its place.
pub proof fn law_service_of_the_application_is_found(
    tokens: Seq<String>,
    location: Option<Seq<char>>,
    facts: TraceFacts,
    i: int,
)
    requires
        tokens.len() > 0 || location is Some,
        0 <= i < facts.services@.len(),
        is_trace(
            facts.services@[i].name@,
            facts.services@[i].display_name@,
            Some(facts.services@[i].image_path@),
            tokens,
            location,
            facts.system_root@,
        ),
    ensures
        found_traces(tokens, location, facts).contains(service_trace(facts.services@[i]))
            || found_traces(tokens, location, facts).len() >= MAX_TRACES,
{
    let t = service_trace(facts.services@[i]);
    let services = with_services(seq![], facts.services@, tokens, location, facts.system_root@);
    let files = with_task_files(services, facts.task_files@, tokens);
    law_no_service_is_missing(seq![], facts.services@, tokens, location, facts.system_root@);
    law_no_task_file_is_missing(services, facts.task_files@, tokens);
    lemma_files_only_add(services, facts.task_files@, tokens);
    lemma_groups_only_add(files, facts.task_groups@, tokens);
    if services.contains(t) {
        let j = choose|j: int| 0 <= j < files.len() && files[j] == t;
        if files.len() < MAX_TRACES {
            assert(with_task_groups(files, facts.task_groups@, tokens)[j] == t);
        }
    }
}

proof fn lemma_files_only_add(traces: Seq<TraceView>, files: Seq<String>, tokens: Seq<String>)
    ensures
        with_task_files(traces, files, tokens).len() >= traces.len(),
    decreases files.len(),
{
    if files.len() > 0 {
        lemma_files_only_add(traces, files.drop_last(), tokens);
    }
}

proof fn lemma_groups_only_add(traces: Seq<TraceView>, groups: Seq<TaskGroup>, tokens: Seq<String>)
    ensures
        with_task_groups(traces, groups, tokens).len() >= traces.len(),
        forall|j: int|
            0 <= j < traces.len() ==> #[trigger] with_task_groups(traces, groups, tokens)[j]
                == traces[j],
    decreases groups.len(),
{
    if groups.len() > 0 {
        let before = with_task_groups(traces, groups.drop_last(), tokens);
        lemma_groups_only_add(traces, groups.drop_last(), tokens);
        law_no_child_is_missing(before, groups.last().prefix@, groups.last().children@, tokens);
        assert forall|j: int| 0 <= j < traces.len() implies #[trigger] with_task_groups(
            traces,
            groups,
            tokens,
        )[j] == traces[j] by {
            assert(before[j] == traces[j]);
        }
    }
}

/// Of the known applications each must not run under its own name while its
/// data are moved.
pub proof fn law_which_processes_must_not_run(app_name: Seq<char>)
    ensures
        plain_app_name(app_name) == "wechat"@ ==> text::among(
            processes_of(app_name),
            "wechat.exe"@,
        ),
        plain_app_name(app_name) == "qq"@ ==> text::among(processes_of(app_name), "qq.exe"@),
        plain_app_name(app_name) == "tim"@ ==> text::among(processes_of(app_name), "tim.exe"@),
        plain_app_name(app_name) == "wxwork"@ ==> text::among(
            processes_of(app_name),
            "wxwork.exe"@,
        ),
        plain_app_name(app_name) == "dingtalk"@ ==> text::among(
            processes_of(app_name),
            "dingtalk.exe"@,
        ),
        plain_app_name(app_name) == "feishu"@ || plain_app_name(app_name) == "lark"@
            ==> text::among(processes_of(app_name), "feishu.exe"@) && text::among(
            processes_of(app_name),
            "lark.exe"@,
        ),
        plain_app_name(app_name) == "chrome_cache"@ ==> text::among(
            processes_of(app_name),
            "chrome.exe"@,
        ),
        plain_app_name(app_name) == "edge_cache"@ ==> text::among(
            processes_of(app_name),
            "msedge.exe"@,
        ),
        plain_app_name(app_name) == "vscode_extensions"@ ==> text::among(
            processes_of(app_name),
            "code.exe"@,
        ),
{
    reveal_strlit("wechat");
    reveal_strlit("qq");
    reveal_strlit("tim");
    reveal_strlit("wxwork");
    reveal_strlit("dingtalk");
    reveal_strlit("feishu");
    reveal_strlit("lark");
    reveal_strlit("chrome_cache");
    reveal_strlit("edge_cache");
    reveal_strlit("vscode_extensions");
    let name = plain_app_name(app_name);
    let listed = processes_of(app_name);
    assert("wxwork"@[1] != "wechat"@[1]);
    assert("feishu"@[0] != "wechat"@[0]);
    assert("feishu"@[0] != "wxwork"@[0]);
    if name == "wechat"@ {
        assert(name.len() == 6);
        assert(listed[0]@ == "wechat.exe"@);
    }
    if name == "qq"@ {
        assert(name.len() == 2);
        assert(listed[0]@ == "qq.exe"@);
    }
    if name == "tim"@ {
        assert(name.len() == 3);
        assert(listed[0]@ == "tim.exe"@);
    }
    if name == "wxwork"@ {
        assert(name.len() == 6);
        assert(listed[0]@ == "wxwork.exe"@);
    }
    if name == "dingtalk"@ {
        assert(name.len() == 8);
        assert(listed[0]@ == "dingtalk.exe"@);
    }
    if name == "feishu"@ {
        assert(name.len() == 6);
        assert(listed[0]@ == "feishu.exe"@);
        assert(listed[1]@ == "lark.exe"@);
    }
    if name == "lark"@ {
        assert(name.len() == 4);
        assert(listed[0]@ == "feishu.exe"@);
        assert(listed[1]@ == "lark.exe"@);
    }
    if name == "chrome_cache"@ {
        assert(name.len() == 12);
        assert(listed[0]@ == "chrome.exe"@);
    }
    if name == "edge_cache"@ {
        assert(name.len() == 10);
        assert(listed[0]@ == "msedge.exe"@);
    }
    if name == "vscode_extensions"@ {
        assert(name.len() == 17);
        assert(listed[0]@ == "code.exe"@);
    }
}

} // verus!
