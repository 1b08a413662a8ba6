//! Large folders: the user's own, those of applications, and those that the
//! user added.

#![verifier::loop_isolation(false)]

use vstd::prelude::*;

use crate::list;
use crate::list::{copy_texts, Queue, Ranked};
use crate::models::{AppDataTemplate, CustomFolderEntry, LargeFolder, LargeFolderType};
use crate::path;
use crate::text;

pub mod folder_laws;
pub mod restore;
pub mod size_scan;
pub mod templates;

use templates::{default_app_data_templates, default_table, template_views, TemplateView};

verus! {

/// What is found at the path of a folder.
#[derive(Debug)]
pub struct FolderProbe {
    pub path: String,
    pub exists: bool,
    /// Whether a link stands there.
    pub is_junction: bool,
    pub junction_target: Option<String>,
}

/// A folder of an application that was looked for, and what was found.
#[derive(Debug)]
pub struct DetectedFolder {
    pub name: String,
    pub place: FolderProbe,
}

/// A template, and what is found at the path that it gives; the place is of no
/// meaning where it gives none.
#[derive(Debug)]
pub struct ProbedTemplate {
    pub template: AppDataTemplate,
    pub place: FolderProbe,
}

/// A folder that the user added, and what is found at its path.
#[derive(Debug)]
pub struct ProbedCustomFolder {
    pub entry: CustomFolderEntry,
    pub place: FolderProbe,
}

/// A large folder, as a value.
#[verifier::ext_equal]
pub struct FolderView {
    pub id: Seq<char>,
    pub display_name: Seq<char>,
    pub path: Seq<char>,
    pub size: u64,
    pub folder_type: LargeFolderType,
    pub is_junction: bool,
    pub junction_target: Option<Seq<char>>,
    pub app_process_names: Seq<Seq<char>>,
    pub icon_id: Seq<char>,
    pub exists: bool,
}

impl View for LargeFolder {
    type V = FolderView;

    open spec fn view(&self) -> FolderView {
        FolderView {
            id: self.id@,
            display_name: self.display_name@,
            path: self.path@,
            size: self.size,
            folder_type: self.folder_type,
            is_junction: self.is_junction,
            junction_target: text::view_of(self.junction_target),
            app_process_names: text::texts(self.app_process_names@),
            icon_id: self.icon_id@,
            exists: self.exists,
        }
    }
}

pub open spec fn folder_views(v: Seq<LargeFolder>) -> Seq<FolderView> {
    Seq::new(v.len(), |i: int| v[i]@)
}

/// The group in which a folder is listed: what has not been moved comes first,
/// and within that the user's own folders, those of applications, and those
/// that were added.
pub open spec fn group_of(folder: FolderView) -> int {
    (if folder.is_junction {
        3int
    } else {
        0
    }) + match folder.folder_type {
        LargeFolderType::System => 0int,
        LargeFolderType::AppData => 1,
        LargeFolderType::Custom => 2,
    }
}

fn group_number(folder: &LargeFolder) -> (r: u8)
    ensures
        r == group_of(folder@),
{
    let within: u8 = match folder.folder_type {
        LargeFolderType::System => 0,
        LargeFolderType::AppData => 1,
        LargeFolderType::Custom => 2,
    };
    if folder.is_junction {
        within + 3
    } else {
        within
    }
}

impl Ranked for LargeFolder {
    open spec fn before(self, other: Self) -> bool {
        group_of(self@) < group_of(other@)
    }

    proof fn lemma_ranks_transitive(a: Self, b: Self, c: Self) {
    }

    proof fn lemma_ranks_asymmetric(a: Self, b: Self) {
    }

    fn precedes(&self, other: &Self) -> (r: bool) {
        group_number(self) < group_number(other)
    }
}

/// A folder that has not been measured. `counts` says whether a link that
/// stands there counts.
pub open spec fn unmeasured(
    id: Seq<char>,
    display_name: Seq<char>,
    place: FolderProbe,
    folder_type: LargeFolderType,
    counts: bool,
    processes: Seq<Seq<char>>,
    icon_id: Seq<char>,
) -> FolderView {
    FolderView {
        id,
        display_name,
        path: place.path@,
        size: 0,
        folder_type,
        is_junction: counts && place.is_junction,
        junction_target: if counts && place.is_junction {
            text::view_of(place.junction_target)
        } else {
            None
        },
        app_process_names: processes,
        icon_id,
        exists: place.exists,
    }
}

fn make_folder(
    id: &str,
    display_name: &str,
    place: &FolderProbe,
    folder_type: LargeFolderType,
    counts: bool,
    processes: Vec<String>,
    icon_id: &str,
) -> (r: LargeFolder)
    ensures
        r@ == unmeasured(
            id@,
            display_name@,
            *place,
            folder_type,
            counts,
            text::texts(processes@),
            icon_id@,
        ),
{
    let is_junction = counts && place.is_junction;
    let junction_target = if is_junction {
        match &place.junction_target {
            Some(target) => Some(target.clone()),
            None => None,
        }
    } else {
        None
    };
    LargeFolder {
        id: id.to_owned(),
        display_name: display_name.to_owned(),
        path: place.path.clone(),
        size: 0,
        folder_type,
        is_junction,
        junction_target,
        app_process_names: processes,
        icon_id: icon_id.to_owned(),
        exists: place.exists,
    }
}

/// The places of the user's own folders; absent where the system gives none.
#[derive(Debug)]
pub struct SystemPlaces {
    pub desktop: Option<FolderProbe>,
    pub documents: Option<FolderProbe>,
    pub downloads: Option<FolderProbe>,
    pub pictures: Option<FolderProbe>,
    pub videos: Option<FolderProbe>,
}

/// The list with one of the user's own folders added, if it has a place.
pub open spec fn with_system(
    folders: Seq<FolderView>,
    id: Seq<char>,
    name: Seq<char>,
    place: Option<FolderProbe>,
    processes: Seq<Seq<char>>,
) -> Seq<FolderView> {
    match place {
        Some(place) => folders.push(
            unmeasured(id, name, place, LargeFolderType::System, true, processes, id),
        ),
        None => folders,
    }
}

/// The user's own folders.
pub open spec fn system_folders(places: SystemPlaces) -> Seq<FolderView> {
    let a = with_system(seq![], "desktop"@, "桌面"@, places.desktop, seq!["explorer.exe"@]);
    let b = with_system(a, "documents"@, "文档"@, places.documents, seq![]);
    let c = with_system(b, "downloads"@, "下载"@, places.downloads, seq![]);
    let d = with_system(c, "pictures"@, "图片"@, places.pictures, seq![]);
    with_system(d, "videos"@, "视频"@, places.videos, seq![])
}

fn add_system(
    folders: &mut Vec<LargeFolder>,
    id: &str,
    name: &str,
    place: &Option<FolderProbe>,
    processes: Vec<String>,
)
    ensures
        folder_views(final(folders)@) == with_system(
            folder_views(old(folders)@),
            id@,
            name@,
            *place,
            text::texts(processes@),
        ),
{
    if let Some(place) = place {
        let ghost before = folder_views(folders@);
        let folder = make_folder(id, name, place, LargeFolderType::System, true, processes, id);
        folders.push(folder);
        assert(folder_views(folders@) =~= before.push(folder@));
    }
}

fn list_system_folders(places: &SystemPlaces) -> (r: Vec<LargeFolder>)
    ensures
        folder_views(r@) == system_folders(*places),
{
    let mut r: Vec<LargeFolder> = Vec::new();
    assert(folder_views(r@) =~= seq![]);
    let explorer = vec!["explorer.exe".to_owned()];
    assert(text::texts(explorer@) =~= seq!["explorer.exe"@]);
    add_system(&mut r, "desktop", "桌面", &places.desktop, explorer);
    let none: Vec<String> = Vec::new();
    assert(text::texts(none@) =~= seq![]);
    add_system(&mut r, "documents", "文档", &places.documents, none);
    let none: Vec<String> = Vec::new();
    assert(text::texts(none@) =~= seq![]);
    add_system(&mut r, "downloads", "下载", &places.downloads, none);
    let none: Vec<String> = Vec::new();
    assert(text::texts(none@) =~= seq![]);
    add_system(&mut r, "pictures", "图片", &places.pictures, none);
    let none: Vec<String> = Vec::new();
    assert(text::texts(none@) =~= seq![]);
    add_system(&mut r, "videos", "视频", &places.videos, none);
    r
}

/// The position of the first line with an identifier, but for the case of ASCII
/// letters, or the number of lines.
pub open spec fn line_position(table: Seq<TemplateView>, id: Seq<char>, i: int) -> int
    decreases table.len() - i,
{
    if i >= table.len() || i < 0 || text::ascii_lowercase(table[i].id) == text::ascii_lowercase(
        id,
    ) {
        i
    } else {
        line_position(table, id, i + 1)
    }
}

/// Whether a template gives the path that the built-in list gives, but for the
/// case of ASCII letters.
pub open spec fn has_default_path(template: TemplateView) -> bool {
    let at = line_position(default_table(), template.id, 0);
    at < default_table().len() && match (default_table()[at].path, template.path) {
        (Some(default_path), Some(path)) => text::ascii_lowercase(default_path)
            == text::ascii_lowercase(path),
        _ => false,
    }
}

/// Whether a template gives the path that the built-in list gives: then its
/// folder is not shown where it does not exist.
pub fn is_missing_default_builtin_path(template: &AppDataTemplate) -> (r: bool)
    ensures
        r == has_default_path(template@),
{
    let defaults = default_app_data_templates();
    let ghost table = template_views(defaults@);
    let mut i: usize = 0;
    while i < defaults.len()
        invariant
            i <= defaults@.len(),
            line_position(table, template.id@, 0) == line_position(table, template.id@, i as int),
        decreases defaults@.len() - i,
    {
        assert(table[i as int] == defaults@[i as int]@);
        if text::same_ignoring_ascii_case(defaults[i].id.as_str(), template.id.as_str()) {
            return match (&defaults[i].path, &template.path) {
                (Some(default_path), Some(path)) => text::same_ignoring_ascii_case(
                    default_path.as_str(),
                    path.as_str(),
                ),
                _ => false,
            };
        }
        i = i + 1;
    }
    false
}

/// The position of the folder that was looked for under a name, or the number
/// of folders.
pub open spec fn detected_position(detected: Seq<DetectedFolder>, name: Seq<char>, i: int) -> int
    decreases detected.len() - i,
{
    if i >= detected.len() || i < 0 || detected[i].name@ == name {
        i
    } else {
        detected_position(detected, name, i + 1)
    }
}

/// The folder of a template: that at its path, or that which was detected under
/// its identifier. It is absent where nothing was looked for, and where it does
/// not exist at a path that is the built-in one.
pub open spec fn template_folder(one: ProbedTemplate, detected: Seq<DetectedFolder>) -> Option<
    FolderView,
> {
    let template = one.template@;
    if template.path is Some {
        if !one.place.exists && has_default_path(template) {
            None
        } else {
            Some(
                unmeasured(
                    template.id,
                    template.display_name,
                    one.place,
                    LargeFolderType::AppData,
                    one.place.exists,
                    template.process_names,
                    template.icon_id,
                ),
            )
        }
    } else {
        let at = detected_position(detected, template.id, 0);
        if at < detected.len() {
            Some(
                unmeasured(
                    template.id,
                    template.display_name,
                    detected[at].place,
                    LargeFolderType::AppData,
                    detected[at].place.exists,
                    template.process_names,
                    template.icon_id,
                ),
            )
        } else {
            None
        }
    }
}

fn find_detected(detected: &Vec<DetectedFolder>, name: &str) -> (r: usize)
    ensures
        r == detected_position(detected@, name@, 0),
        r <= detected@.len(),
{
    let mut i: usize = 0;
    while i < detected.len()
        invariant
            i <= detected@.len(),
            detected_position(detected@, name@, 0) == detected_position(
                detected@,
                name@,
                i as int,
            ),
        decreases detected@.len() - i,
    {
        if text::same(detected[i].name.as_str(), name) {
            return i;
        }
        i = i + 1;
    }
    i
}

pub open spec fn optional_view(folder: Option<LargeFolder>) -> Option<FolderView> {
    match folder {
        Some(folder) => Some(folder@),
        None => None,
    }
}

fn folder_of_template(one: &ProbedTemplate, detected: &Vec<DetectedFolder>) -> (r: Option<
    LargeFolder,
>)
    ensures
        optional_view(r) == template_folder(*one, detected@),
{
    let template = &one.template;
    let processes = copy_texts(&template.process_names);
    if template.path.is_some() {
        if !one.place.exists && is_missing_default_builtin_path(template) {
            return None;
        }
        return Some(
            make_folder(
                template.id.as_str(),
                template.display_name.as_str(),
                &one.place,
                LargeFolderType::AppData,
                one.place.exists,
                processes,
                template.icon_id.as_str(),
            ),
        );
    }
    let at = find_detected(detected, template.id.as_str());
    if at == detected.len() {
        return None;
    }
    Some(
        make_folder(
            template.id.as_str(),
            template.display_name.as_str(),
            &detected[at].place,
            LargeFolderType::AppData,
            detected[at].place.exists,
            processes,
            template.icon_id.as_str(),
        ),
    )
}

/// The folders of the templates, in order.
pub open spec fn template_folders(
    templates: Seq<ProbedTemplate>,
    detected: Seq<DetectedFolder>,
) -> Seq<FolderView>
    decreases templates.len(),
{
    if templates.len() == 0 {
        seq![]
    } else {
        let before = template_folders(templates.drop_last(), detected);
        match template_folder(templates.last(), detected) {
            Some(folder) => before.push(folder),
            None => before,
        }
    }
}

/// The folder that a user added.
pub open spec fn custom_folder(one: ProbedCustomFolder) -> FolderView {
    unmeasured(
        one.entry.id@,
        one.entry.display_name@,
        FolderProbe { path: one.entry.path, ..one.place },
        LargeFolderType::Custom,
        one.place.exists,
        seq![],
        "folder"@,
    )
}

pub open spec fn custom_folders(custom: Seq<ProbedCustomFolder>) -> Seq<FolderView> {
    Seq::new(custom.len(), |i: int| custom_folder(custom[i]))
}

/// Lists the large folders: those of the user, those of applications and those
/// that were added, in the order of their groups. None is measured.
pub fn get_large_folders(
    places: &SystemPlaces,
    templates: &Vec<ProbedTemplate>,
    detected: &Vec<DetectedFolder>,
    custom: &Vec<ProbedCustomFolder>,
) -> (r: Vec<LargeFolder>)
    ensures
        exists|found: Seq<LargeFolder>|
            folder_views(found) == system_folders(*places) + template_folders(
                templates@,
                detected@,
            ) + custom_folders(custom@) && #[trigger] list::is_stable_sort(found, r@),
{
    let mut folders = list_system_folders(places);
    let ghost first = folder_views(folders@);
    let mut i: usize = 0;
    assert(templates@.take(0) =~= seq![]);
    assert(folder_views(folders@) =~= first + template_folders(templates@.take(0), detected@));
    while i < templates.len()
        invariant
            i <= templates@.len(),
            folder_views(folders@) == first + template_folders(
                templates@.take(i as int),
                detected@,
            ),
        decreases templates@.len() - i,
    {
        assert(templates@.take(i + 1).drop_last() =~= templates@.take(i as int));
        let ghost before = folder_views(folders@);
        if let Some(folder) = folder_of_template(&templates[i], detected) {
            folders.push(folder);
            assert(folder_views(folders@) =~= before.push(folder@));
        }
        i = i + 1;
        assert(folder_views(folders@) =~= first + template_folders(
            templates@.take(i as int),
            detected@,
        ));
    }
    assert(templates@.take(i as int) =~= templates@);
    let ghost second = folder_views(folders@);
    let mut k: usize = 0;
    assert(folder_views(folders@) =~= second + custom_folders(custom@).take(0));
    while k < custom.len()
        invariant
            k <= custom@.len(),
            folder_views(folders@) == second + custom_folders(custom@).take(k as int),
        decreases custom@.len() - k,
    {
        let one = &custom[k];
        let none: Vec<String> = Vec::new();
        assert(text::texts(none@) =~= seq![]);
        let target = match &one.place.junction_target {
            Some(target) => Some(target.clone()),
            None => None,
        };
        let place = FolderProbe {
            path: one.entry.path.clone(),
            exists: one.place.exists,
            is_junction: one.place.is_junction,
            junction_target: target,
        };
        let folder = make_folder(
            one.entry.id.as_str(),
            one.entry.display_name.as_str(),
            &place,
            LargeFolderType::Custom,
            one.place.exists,
            none,
            "folder",
        );
        let ghost before = folder_views(folders@);
        assert(folder@ =~= custom_folder(*one));
        folders.push(folder);
        assert(folder_views(folders@) =~= before.push(folder@));
        k = k + 1;
        assert(custom_folders(custom@).take(k as int) =~= custom_folders(custom@).take(k - 1).push(
            folder@,
        ));
        assert(folder_views(folders@) =~= second + custom_folders(custom@).take(k as int));
    }
    assert(custom_folders(custom@).take(k as int) =~= custom_folders(custom@));
    let ghost found = folders@;
    let r = list::stable_sort(folders);
    assert(list::is_stable_sort(found, r@));
    r
}

/// What has been moved is listed after all that has not.
pub proof fn law_moved_folders_come_last(
    found: Seq<LargeFolder>,
    listed: Seq<LargeFolder>,
    i: int,
    j: int,
)
    requires
        list::is_stable_sort(found, listed),
        0 <= i < j < listed.len(),
    ensures
        listed[i].is_junction ==> listed[j].is_junction,
        group_of(listed[i]@) <= group_of(listed[j]@),
{
    let p = choose|p: Seq<int>| list::is_stable_rearrangement(found, listed, p);
    assert(!listed[j].before(listed[i]));
}

/// What is found where a folder that is to be moved should be.
pub struct SourceFacts {
    pub exists: bool,
    pub is_dir: bool,
}

/// The name under which a folder is moved, or why it is not: it has to exist
/// and to be a directory.
pub fn migrate_large_folder(source_path: &str, facts: &SourceFacts) -> (r: Result<String, String>)
    ensures
        match r {
            Ok(name) => facts.exists && facts.is_dir && name@ == match path::last_name(
                source_path@,
            ) {
                Some(name) => name,
                None => "unknown"@,
            },
            Err(reason) => (!facts.exists && reason@ == "源路径不存在: "@ + source_path@) || (
            facts.exists && !facts.is_dir && reason@ == "源路径必须是一个目录"@),
        },
{
    if !facts.exists {
        let mut reason = "源路径不存在: ".to_owned();
        reason.push_str(source_path);
        return Err(reason);
    }
    if !facts.is_dir {
        return Err("源路径必须是一个目录".to_owned());
    }
    Ok(
        match path::last_name_of(source_path) {
            Some(name) => name,
            None => "unknown".to_owned(),
        },
    )
}

/// Whether a folder is among those that the user added, but for case.
pub open spec fn is_added(custom: Seq<CustomFolderEntry>, path: Seq<char>) -> bool {
    exists|i: int|
        0 <= i < custom.len() && text::lowercase((#[trigger] custom[i]).path@) == text::lowercase(
            path,
        )
}

/// Adds a folder to those that the user added; or says why not: it has to be a
/// directory and not to be there yet. `id` is the identifier that it gets.
pub fn add_custom_folder(
    custom: Vec<CustomFolderEntry>,
    path: String,
    facts: &SourceFacts,
    id: String,
) -> (r: Result<Vec<CustomFolderEntry>, String>)
    ensures
        match r {
            Ok(added) => facts.exists && facts.is_dir && !is_added(custom@, path@) && added@
                == custom@.push(added@.last()) && added@.last().id == id && added@.last().path
                == path && added@.last().display_name@ == match path::last_name(path@) {
                Some(name) => name,
                None => path@,
            },
            Err(reason) => if !facts.exists || !facts.is_dir {
                reason@ == "路径不存在或不是文件夹: "@ + path@
            } else {
                is_added(custom@, path@) && reason@ == "该文件夹已在列表中"@
            },
        },
{
    if !facts.exists || !facts.is_dir {
        let mut reason = "路径不存在或不是文件夹: ".to_owned();
        reason.push_str(path.as_str());
        return Err(reason);
    }
    let lower = text::to_lowercase(path.as_str());
    let mut i: usize = 0;
    while i < custom.len()
        invariant
            i <= custom@.len(),
            forall|j: int|
                0 <= j < i ==> text::lowercase((#[trigger] custom@[j]).path@) != lower@,
        decreases custom@.len() - i,
    {
        let there = text::to_lowercase(custom[i].path.as_str());
        if text::same(there.as_str(), lower.as_str()) {
            return Err("该文件夹已在列表中".to_owned());
        }
        i = i + 1;
    }
    let display_name = match path::last_name_of(path.as_str()) {
        Some(name) => name,
        None => path.clone(),
    };
    let mut added = custom;
    added.push(CustomFolderEntry { id, path, display_name });
    assert(added@ =~= custom@.push(added@.last()));
    Ok(added)
}

pub open spec fn has_other_id(id: Seq<char>) -> spec_fn(CustomFolderEntry) -> bool {
    |entry: CustomFolderEntry| entry.id@ != id
}

/// Removes a folder from those that the user added; or says that it is not
/// there.
pub fn remove_custom_folder(custom: Vec<CustomFolderEntry>, id: &str) -> (r: Result<
    Vec<CustomFolderEntry>,
    String,
>)
    ensures
        match r {
            Ok(left) => left@ == custom@.filter(has_other_id(id@)) && left@.len()
                != custom@.len(),
            Err(reason) => custom@.filter(has_other_id(id@)).len() == custom@.len() && reason@
                == "未找到该自定义文件夹"@,
        },
{
    let ghost all = custom@;
    let before = custom.len();
    let mut rest = Queue::of(custom);
    let mut left: Vec<CustomFolderEntry> = Vec::new();
    let ghost mut n: int = 0;
    proof {
        reveal(Seq::filter);
    }
    assert(rest@ =~= all.skip(0));
    assert(left@ =~= all.take(0).filter(has_other_id(id@)));
    while rest.len() > 0
        invariant
            0 <= n <= all.len(),
            rest@ == all.skip(n),
            left@ == all.take(n).filter(has_other_id(id@)),
        decreases rest@.len(),
    {
        let one = rest.take_first();
        assert(one == all[n]);
        assert(rest@ =~= all.skip(n + 1));
        assert(all.take(n + 1).drop_last() =~= all.take(n));
        proof {
            reveal(Seq::filter);
        }
        if !text::same(one.id.as_str(), id) {
            left.push(one);
        }
        proof {
            n = n + 1;
        }
    }
    assert(all.take(n) =~= all);
    if left.len() == before {
        return Err("未找到该自定义文件夹".to_owned());
    }
    Ok(left)
}

/// Whether no two of the added folders have one path, not even in another case.
pub open spec fn are_distinct(custom: Seq<CustomFolderEntry>) -> bool {
    forall|i: int, j: int|
        0 <= i < j < custom.len() ==> text::lowercase((#[trigger] custom[i]).path@)
            != text::lowercase((#[trigger] custom[j]).path@)
}

/// Adding a folder that is not there yet leaves no path twice.
pub proof fn law_no_folder_is_added_twice(
    custom: Seq<CustomFolderEntry>,
    entry: CustomFolderEntry,
)
    requires
        are_distinct(custom),
        !is_added(custom, entry.path@),
    ensures
        are_distinct(custom.push(entry)),
{
    let added = custom.push(entry);
    assert forall|i: int, j: int| 0 <= i < j < added.len() implies text::lowercase(
        (#[trigger] added[i]).path@,
    ) != text::lowercase((#[trigger] added[j]).path@) by {
        assert(added[i] == custom[i]);
        if j < custom.len() {
            assert(added[j] == custom[j]);
        }
    }
}

/// Removing a folder right after adding it, under an identifier of its own,
/// leaves the folders that were there before.
pub proof fn law_removing_undoes_adding(custom: Seq<CustomFolderEntry>, entry: CustomFolderEntry)
    requires
        forall|i: int| 0 <= i < custom.len() ==> (#[trigger] custom[i]).id@ != entry.id@,
    ensures
        custom.push(entry).filter(has_other_id(entry.id@)) == custom,
{
    reveal(Seq::filter);
    assert(custom.push(entry).drop_last() =~= custom);
    lemma_all_others_stay(custom, entry.id@);
}

proof fn lemma_all_others_stay(custom: Seq<CustomFolderEntry>, id: Seq<char>)
    requires
        forall|i: int| 0 <= i < custom.len() ==> (#[trigger] custom[i]).id@ != id,
    ensures
        custom.filter(has_other_id(id)) == custom,
    decreases custom.len(),
{
    reveal(Seq::filter);
    if custom.len() > 0 {
        let front = custom.drop_last();
        assert forall|i: int| 0 <= i < front.len() implies (#[trigger] front[i]).id@ != id by {
            assert(front[i] == custom[i]);
        }
        lemma_all_others_stay(front, id);
        assert(custom[custom.len() - 1].id@ != id);
        assert(custom.filter(has_other_id(id)) =~= custom);
    } else {
        assert(custom.filter(has_other_id(id)) =~= custom);
    }
}

} // verus!
