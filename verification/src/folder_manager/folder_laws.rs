//! What is promised of large folders: which are listed and how, which are
//! measured, and when one is moved back.

use vstd::prelude::*;

use super::restore::{
    decision_by_history, decision_by_link, running_in_either, DecisionView, RestoreFacts,
};
use super::size_scan::{measured_path, total_of};
use super::templates::{has_id, is_deprecated_id, missing, TemplateView};
use super::{
    custom_folder, group_of, has_default_path, system_folders, template_folder, template_folders,
    DetectedFolder, FolderView, ProbedCustomFolder, ProbedTemplate, SystemPlaces,
};
use crate::migration::migration_laws::{lemma_prefix_and_rest, runs_below};
use crate::migration::{process_views, ProcessView};
use crate::models::{AppDataTemplate, LargeFolder, LargeFolderType, MigrationRecord};
use crate::text;

verus! {

/// A folder in whose place a link stands, and whose target exists and holds
/// something, is moved back from that target; by the history, unless a program
/// runs from either place.
pub proof fn law_linked_folder_is_moved_back(record: MigrationRecord, facts: RestoreFacts)
    requires
        facts.is_junction,
        facts.target_exists,
        facts.target_empty == Ok::<bool, String>(false),
    ensures
        facts.link_target matches Some(target) ==> decision_by_link(facts) == DecisionView::Proceed(
            target@,
        ),
        (forall|i: int|
            0 <= i < facts.processes@.len() ==> !runs_below(
                (#[trigger] facts.processes@[i])@,
                record.original_path@,
            ) && !runs_below(facts.processes@[i]@, record.target_path@)) ==> decision_by_history(
            record,
            facts,
        ) == DecisionView::Proceed(record.target_path@),
        (exists|i: int|
            0 <= i < facts.processes@.len() && (runs_below(
                (#[trigger] facts.processes@[i])@,
                record.original_path@,
            ) || runs_below(facts.processes@[i]@, record.target_path@))) ==> decision_by_history(
            record,
            facts,
        ) is Refused,
{
    let all = process_views(facts.processes@);
    law_programs_in_either_place_are_named(all, record.original_path@, record.target_path@);
    let running = running_in_either(all, record.original_path@, record.target_path@);
    assert forall|i: int| 0 <= i < all.len() implies #[trigger] all[i] == facts.processes@[i]@ by {}
    if running.len() > 0 {
        assert(running.contains(running[0]));
        let i = choose|i: int|
            0 <= i < all.len() && (runs_below(#[trigger] all[i], record.original_path@)
                || runs_below(all[i], record.target_path@)) && all[i].name == running[0];
        assert(all[i] == facts.processes@[i]@);
    }
    if exists|i: int|
        0 <= i < facts.processes@.len() && (runs_below(
            (#[trigger] facts.processes@[i])@,
            record.original_path@,
        ) || runs_below(facts.processes@[i]@, record.target_path@)) {
        let i = choose|i: int|
            0 <= i < facts.processes@.len() && (runs_below(
                (#[trigger] facts.processes@[i])@,
                record.original_path@,
            ) || runs_below(facts.processes@[i]@, record.target_path@));
        assert(all[i] == facts.processes@[i]@);
        assert(running.contains(all[i].name));
    }
}

/// What is no link, leads nowhere or leads to an empty directory is not moved
/// back.
pub proof fn law_folder_without_data_is_not_moved_back(record: MigrationRecord, facts: RestoreFacts)
    requires
        !facts.is_junction || !facts.target_exists || facts.target_empty != Ok::<bool, String>(
            false,
        ),
    ensures
        !(decision_by_link(facts) is Proceed),
        !(decision_by_history(record, facts) is Proceed),
{
}

/// Every program whose executable lies below one of the two places is named, and
/// no other is.
pub proof fn law_programs_in_either_place_are_named(
    processes: Seq<ProcessView>,
    original: Seq<char>,
    target: Seq<char>,
)
    ensures
        forall|i: int|
            0 <= i < processes.len() && (runs_below(#[trigger] processes[i], original)
                || runs_below(processes[i], target)) ==> running_in_either(
                processes,
                original,
                target,
            ).contains(processes[i].name),
        forall|name: Seq<char>| #[trigger]
            running_in_either(processes, original, target).contains(name) ==> exists|i: int|
                0 <= i < processes.len() && (runs_below(#[trigger] processes[i], original)
                    || runs_below(processes[i], target)) && processes[i].name == name,
    decreases processes.len(),
{
    if processes.len() > 0 {
        let front = processes.drop_last();
        law_programs_in_either_place_are_named(front, original, target);
        let before = running_in_either(front, original, target);
        let all = running_in_either(processes, original, target);
        let last = processes.last();
        if last.exe is Some {
            lemma_prefix_and_rest(text::lowercase(last.exe->0), text::lowercase(original));
            lemma_prefix_and_rest(text::lowercase(last.exe->0), text::lowercase(target));
        }
        assert forall|i: int|
            0 <= i < processes.len() && (runs_below(#[trigger] processes[i], original)
                || runs_below(processes[i], target)) implies all.contains(processes[i].name) by {
            if i < front.len() {
                assert(front[i] == processes[i]);
                let k = choose|k: int| 0 <= k < before.len() && before[k] == processes[i].name;
                assert(all[k] == before[k]);
            } else {
                assert(all[all.len() - 1] == last.name);
            }
        }
        assert forall|name: Seq<char>| #[trigger] all.contains(name) implies exists|i: int|
            0 <= i < processes.len() && (runs_below(#[trigger] processes[i], original)
                || runs_below(processes[i], target)) && processes[i].name == name by {
            let k = choose|k: int| 0 <= k < all.len() && all[k] == name;
            if k < before.len() {
                assert(before[k] == name);
                assert(before.contains(name));
                let i = choose|i: int|
                    0 <= i < front.len() && (runs_below(#[trigger] front[i], original)
                        || runs_below(front[i], target)) && front[i].name == name;
                assert(processes[i] == front[i]);
            } else {
                assert(processes[processes.len() - 1] == last);
            }
        }
    }
}

/// A folder that has not been moved stands before every one that has; among
/// these and those the user's own come first and the added ones last.
pub proof fn law_groups_of_folders(a: FolderView, b: FolderView)
    ensures
        !a.is_junction && b.is_junction ==> group_of(a) < group_of(b),
        a.is_junction == b.is_junction && a.folder_type == LargeFolderType::System && b.folder_type
            != LargeFolderType::System ==> group_of(a) < group_of(b),
        a.is_junction == b.is_junction && a.folder_type != LargeFolderType::Custom && b.folder_type
            == LargeFolderType::Custom ==> group_of(a) < group_of(b),
        a.is_junction == b.is_junction && a.folder_type == b.folder_type ==> group_of(a)
            == group_of(b),
{
}

/// A template's folder is shown at its path where it exists; where it does not,
/// it is shown only if the user has changed the path.
pub proof fn law_folders_of_templates(one: ProbedTemplate, detected: Seq<DetectedFolder>)
    requires
        one.template.path is Some,
    ensures
        one.place.exists ==> (template_folder(one, detected) matches Some(folder) && folder.path
            == one.place.path@ && folder.exists && folder.is_junction == one.place.is_junction),
        !one.place.exists && has_default_path(one.template@) ==> template_folder(one, detected)
            is None,
        !one.place.exists && !has_default_path(one.template@) ==> (template_folder(
            one,
            detected,
        ) matches Some(folder) && !folder.exists && !folder.is_junction),
{
}

/// A template's folder is known by what the template says of it.
pub proof fn law_template_names_its_folder(one: ProbedTemplate, detected: Seq<DetectedFolder>)
    ensures
        template_folder(one, detected) matches Some(folder) ==> folder.id == one.template.id@
            && folder.display_name == one.template.display_name@ && folder.icon_id
            == one.template.icon_id@ && folder.folder_type == LargeFolderType::AppData
            && folder.size == 0,
{
}

/// Every template whose folder is shown adds one folder to the list, in order.
pub proof fn law_every_template_has_its_folder(
    templates: Seq<ProbedTemplate>,
    detected: Seq<DetectedFolder>,
    i: int,
)
    requires
        0 <= i < templates.len(),
        template_folder(templates[i], detected) is Some,
    ensures
        template_folders(templates, detected).contains(template_folder(templates[i], detected)->0),
    decreases templates.len(),
{
    let front = templates.drop_last();
    let before = template_folders(front, detected);
    let all = template_folders(templates, detected);
    if i < front.len() {
        assert(front[i] == templates[i]);
        law_every_template_has_its_folder(front, detected, i);
        let wanted = template_folder(templates[i], detected)->0;
        let k = choose|k: int| 0 <= k < before.len() && before[k] == wanted;
        assert(all[k] == before[k]);
    } else {
        assert(all[all.len() - 1] == template_folder(templates[i], detected)->0);
    }
}

/// A folder that the user added is shown under its own path and name, whether or
/// not it exists; a link counts only where it does.
pub proof fn law_added_folders_are_shown(one: ProbedCustomFolder)
    ensures
        custom_folder(one).path == one.entry.path@,
        custom_folder(one).display_name == one.entry.display_name@,
        custom_folder(one).id == one.entry.id@,
        custom_folder(one).folder_type == LargeFolderType::Custom,
        custom_folder(one).exists == one.place.exists,
        custom_folder(one).is_junction == (one.place.exists && one.place.is_junction),
{
}

/// Each of the user's own folders that has a place is listed.
pub proof fn law_own_folders_are_listed(places: SystemPlaces)
    requires
        places.desktop is Some && places.documents is Some && places.downloads is Some
            && places.pictures is Some && places.videos is Some,
    ensures
        ({
            let folders = system_folders(places);
            &&& folders.len() == 5
            &&& folders[0].path == (places.desktop->0).path@ && folders[0].id == "desktop"@
            &&& folders[1].path == (places.documents->0).path@ && folders[1].id == "documents"@
            &&& folders[2].path == (places.downloads->0).path@ && folders[2].id == "downloads"@
            &&& folders[3].path == (places.pictures->0).path@ && folders[3].id == "pictures"@
            &&& folders[4].path == (places.videos->0).path@ && folders[4].id == "videos"@
            &&& forall|i: int|
                0 <= i < 5 ==> (#[trigger] folders[i]).folder_type == LargeFolderType::System
        }),
{
}

/// What is measured for a folder is what is there: the folder itself, or what
/// the link in its place leads to.
pub proof fn law_what_is_measured(folder: LargeFolder)
    ensures
        !folder.exists ==> measured_path(folder) is None,
        folder.exists && !folder.is_junction ==> measured_path(folder) == Some(folder.path@),
        folder.exists && folder.is_junction ==> measured_path(folder) == text::view_of(
            folder.junction_target,
        ),
{
}

/// The size of two lots of files is that of one and that of the other.
pub proof fn law_sizes_add_up(a: Seq<u64>, b: Seq<u64>)
    ensures
        total_of(a + b) == total_of(a) + total_of(b),
        forall|i: int| 0 <= i < a.len() ==> #[trigger] a[i] <= total_of(a),
    decreases a.len() + b.len(),
{
    if b.len() > 0 {
        law_sizes_add_up(a, b.drop_last());
        assert((a + b).drop_last() =~= a + b.drop_last());
    } else {
        assert(a + b =~= a);
        if a.len() > 0 {
            law_sizes_add_up(a.drop_last(), b);
            assert forall|i: int| 0 <= i < a.len() implies #[trigger] a[i] <= total_of(a) by {
                if i < a.len() - 1 {
                    assert(a.drop_last()[i] == a[i]);
                }
            }
        }
    }
}

/// Every line of a table whose identifier the templates lack is missing from
/// them, and no other is.
pub proof fn law_missing_lines(
    templates: Seq<AppDataTemplate>,
    table: Seq<TemplateView>,
    line: TemplateView,
)
    ensures
        missing(templates, table).contains(line) <==> table.contains(line) && !has_id(
            templates,
            line.id,
        ),
    decreases table.len(),
{
    if table.len() > 0 {
        let front = table.drop_last();
        law_missing_lines(templates, front, line);
        let before = missing(templates, front);
        let all = missing(templates, table);
        assert(table[table.len() - 1] == table.last());
        if table.contains(line) {
            let i = choose|i: int| 0 <= i < table.len() && table[i] == line;
            if i < front.len() {
                assert(front[i] == line);
            }
        }
        if front.contains(line) {
            let i = choose|i: int| 0 <= i < front.len() && front[i] == line;
            assert(table[i] == line);
        }
        if all.len() > before.len() {
            assert(all[all.len() - 1] == table.last());
            if before.contains(line) {
                let i = choose|i: int| 0 <= i < before.len() && before[i] == line;
                assert(all[i] == line);
            }
            if all.contains(line) {
                let i = choose|i: int| 0 <= i < all.len() && all[i] == line;
                if i < before.len() {
                    assert(before[i] == line);
                }
            }
        }
    }
}

/// A line that was built in once and is not any more is told by its identifier,
/// in whatever case.
pub proof fn law_deprecated_lines(id: Seq<char>, other: Seq<char>)
    ensures
        text::ascii_lowercase(id) == text::ascii_lowercase(other) ==> is_deprecated_id(id)
            == is_deprecated_id(other),
        text::ascii_lowercase(id) == text::ascii_lowercase("pnpm_store"@) ==> is_deprecated_id(id),
        text::ascii_lowercase(id) == text::ascii_lowercase("windsurf_appdata"@)
            ==> is_deprecated_id(id),
        text::ascii_lowercase(id) == text::ascii_lowercase("codeium_data"@) ==> is_deprecated_id(
            id,
        ),
        text::ascii_lowercase(id) == text::ascii_lowercase("zed_appdata"@) ==> is_deprecated_id(
            id,
        ),
{
    let ids = super::templates::deprecated_ids();
    assert(ids[0] == "pnpm_store" && ids[1] == "windsurf_appdata" && ids[3] == "codeium_data"
        && ids[5] == "zed_appdata");
    if text::ascii_lowercase(id) == text::ascii_lowercase("pnpm_store"@) {
        assert(text::ascii_lowercase(ids[0]@) == text::ascii_lowercase(id));
    }
    if text::ascii_lowercase(id) == text::ascii_lowercase("windsurf_appdata"@) {
        assert(text::ascii_lowercase(ids[1]@) == text::ascii_lowercase(id));
    }
    if text::ascii_lowercase(id) == text::ascii_lowercase("codeium_data"@) {
        assert(text::ascii_lowercase(ids[3]@) == text::ascii_lowercase(id));
    }
    if text::ascii_lowercase(id) == text::ascii_lowercase("zed_appdata"@) {
        assert(text::ascii_lowercase(ids[5]@) == text::ascii_lowercase(id));
    }
}

} // verus!
