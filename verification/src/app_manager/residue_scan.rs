//! Collecting what an application leaves behind, each thing once, the largest
//! first.

#![verifier::loop_isolation(false)]

use vstd::prelude::*;

use super::registry::{
    below, hive_name, is_safe_registry_cleanup_target, may_delete_key, path_below, Hive, KeyFacts,
};
use super::residue::{
    is_blacklisted_path, is_entry_of, is_protected_path, is_remain, matches_registry_key_strict,
    matches_strict_leftover_path, FoundPath, LeftoverItem, StrictScanContext,
};
use super::uninstall_search::UninstallEntry;
use crate::list;
use crate::list::{has_text, Ranked};
use crate::text;
use crate::text::CharSet;

verus! {

/// Something left behind, as a value.
pub struct ItemView {
    pub path: Seq<char>,
    pub item_type: Seq<char>,
    pub size_hundredths: u64,
    pub selected: bool,
}

impl View for LeftoverItem {
    type V = ItemView;

    open spec fn view(&self) -> ItemView {
        ItemView {
            path: self.path@,
            item_type: self.item_type@,
            size_hundredths: self.size_hundredths,
            selected: self.selected,
        }
    }
}

pub open spec fn item_views(items: Seq<LeftoverItem>) -> Seq<ItemView> {
    Seq::new(items.len(), |i: int| items[i]@)
}

/// What has been found so far, and the paths by which repeats are recognised.
#[derive(Debug)]
pub struct ResidueScan {
    pub items: Vec<LeftoverItem>,
    pub seen: Vec<String>,
}

#[verifier::ext_equal]
pub struct ScanView {
    pub items: Seq<ItemView>,
    pub seen: Seq<Seq<char>>,
}

impl View for ResidueScan {
    type V = ScanView;

    open spec fn view(&self) -> ScanView {
        ScanView { items: item_views(self.items@), seen: text::texts(self.seen@) }
    }
}

impl ScanView {
    /// The paths seen are those of the items, and all different.
    pub open spec fn is_tidy(self) -> bool {
        &&& self.seen.len() == self.items.len()
        &&& forall|i: int|
            0 <= i < self.seen.len() ==> #[trigger] self.seen[i] == text::lowercase(
                self.items[i].path,
            )
        &&& forall|i: int, j: int|
            0 <= i < j < self.seen.len() ==> #[trigger] self.seen[i] != #[trigger] self.seen[j]
    }

    /// The item added unless its path was seen, but for case.
    pub open spec fn with_item(self, item: ItemView) -> ScanView {
        if self.seen.contains(text::lowercase(item.path)) {
            self
        } else {
            ScanView {
                items: self.items.push(item),
                seen: self.seen.push(text::lowercase(item.path)),
            }
        }
    }

    /// The path added if it is a remain that may be touched.
    pub open spec fn with_path(self, found: FoundPath, context: StrictScanContext) -> ScanView {
        if is_protected_path(found.path@) || !is_remain(
            found.path@,
            context,
        ) {
            self
        } else {
            self.with_item(
                ItemView {
                    path: found.path@,
                    item_type: if found.is_dir {
                        "Folder"@
                    } else {
                        "File"@
                    },
                    size_hundredths: found.size_hundredths,
                    selected: true,
                },
            )
        }
    }

    pub open spec fn with_paths(self, found: Seq<FoundPath>, context: StrictScanContext) -> ScanView
        decreases found.len(),
    {
        if found.len() == 0 {
            self
        } else {
            self.with_paths(found.drop_last(), context).with_path(found.last(), context)
        }
    }

    pub open spec fn with_key(self, hive: Hive, path: Seq<char>) -> ScanView {
        self.with_item(
            ItemView {
                path: below(hive_name(hive)@, path),
                item_type: "Registry"@,
                size_hundredths: 0,
                selected: true,
            },
        )
    }

    /// The keys of the entries added that are those of the application.
    pub open spec fn with_entries(
        self,
        entries: Seq<UninstallEntry>,
        context: StrictScanContext,
    ) -> ScanView
        decreases entries.len(),
    {
        if entries.len() == 0 {
            self
        } else {
            let before = self.with_entries(entries.drop_last(), context);
            let entry = entries.last();
            if is_entry_of(entry, context) {
                before.with_key(entry.hive, entry.path@)
            } else {
                before
            }
        }
    }

    /// The publisher's keys added that are those of the application.
    pub open spec fn with_publisher_keys(
        self,
        keys: Seq<PublisherKey>,
        context: StrictScanContext,
    ) -> ScanView
        decreases keys.len(),
    {
        if keys.len() == 0 {
            self
        } else {
            let before = self.with_publisher_keys(keys.drop_last(), context);
            let key = keys.last();
            if is_key_of(key, context) {
                before.with_key(key.hive, publisher_key_path(key, context))
            } else {
                before
            }
        }
    }

    /// The file associations added that are those of the application.
    pub open spec fn with_class_keys(
        self,
        keys: Seq<ClassKey>,
        context: StrictScanContext,
    ) -> ScanView
        decreases keys.len(),
    {
        if keys.len() == 0 {
            self
        } else {
            let before = self.with_class_keys(keys.drop_last(), context);
            let key = keys.last();
            if text::contains_text(text::lowercase(key.name@), context.app_folder_name@) {
                before.with_key(key.hive, below(key.root_path@, key.name@))
            } else {
                before
            }
        }
    }
}

/// A key below the publisher's.
#[derive(Debug)]
pub struct PublisherKey {
    pub hive: Hive,
    /// The path of the key below which the publishers' keys lie.
    pub root_path: String,
    pub name: String,
    pub facts: KeyFacts,
}

/// A key of file associations.
#[derive(Debug)]
pub struct ClassKey {
    pub hive: Hive,
    pub root_path: String,
    pub name: String,
}

pub open spec fn publisher_key_path(key: PublisherKey, context: StrictScanContext) -> Seq<char> {
    below(below(key.root_path@, context.publisher_name->0@), key.name@)
}

/// Whether a key's name, in lower case, is the application's by its folder.
pub open spec fn is_named_like_folder(name: Seq<char>, context: StrictScanContext) -> bool {
    text::contains_text(name, context.app_folder_name@) || text::contains_text(
        context.app_folder_name@,
        name,
    )
}

/// Whether a key's name, in lower case, is the application's by its place.
pub open spec fn is_named_like_place(name: Seq<char>, context: StrictScanContext) -> bool {
    match context.install_location {
        Some(location) => {
            let last = text::pieces(location@, CharSet::One('\\')).last();
            text::contains_text(name, last) || text::contains_text(text::lowercase(last), name)
        },
        None => false,
    }
}

/// Whether a key below the publisher's is the application's and may be deleted.
pub open spec fn is_key_of(key: PublisherKey, context: StrictScanContext) -> bool {
    &&& context.publisher_name is Some
    &&& context.publisher_name->0@.len() > 0
    &&& is_named_like_folder(text::lowercase(key.name@), context) || is_named_like_place(
        text::lowercase(key.name@),
        context,
    )
    &&& key.facts.opens
    &&& may_delete_key(
        publisher_key_path(key, context),
        key.facts,
        seq![context.publisher_name->0],
    )
}

/// Whether a directory is searched for remains.
pub fn searches_root(path: &str, present: bool, is_dir: bool) -> (r: bool)
    ensures
        r == (present && is_dir && !is_protected_path(path@)),
{
    present && is_dir && !is_blacklisted_path(path)
}

impl ResidueScan {
    /// Nothing has been found yet.
    pub fn new() -> (r: ResidueScan)
        ensures
            r@ == (ScanView { items: seq![], seen: seq![] }),
            r@.is_tidy(),
    {
        let r = ResidueScan { items: Vec::new(), seen: Vec::new() };
        assert(r@ =~= (ScanView { items: seq![], seen: seq![] }));
        r
    }

    fn add(&mut self, item: LeftoverItem)
        requires
            old(self)@.is_tidy(),
        ensures
            final(self)@ == old(self)@.with_item(item@),
            final(self)@.is_tidy(),
    {
        let canonical = text::to_lowercase(item.path.as_str());
        proof {
            super::keywords::lemma_holds_is_contains(self.seen@, canonical@);
        }
        if has_text(&self.seen, canonical.as_str()) {
            return;
        }
        let ghost before = self@;
        proof {
            text::lemma_texts_push(self.seen@, canonical);
        }
        self.seen.push(canonical);
        self.items.push(item);
        assert(item_views(self.items@) =~= before.items.push(item@));
        assert(self@ =~= before.with_item(item@));
        assert forall|i: int| 0 <= i < self@.seen.len() implies #[trigger] self@.seen[i]
            == text::lowercase(self@.items[i].path) by {
            if i < before.seen.len() {
                assert(before.seen[i] == text::lowercase(before.items[i].path));
            }
        }
        assert forall|i: int, j: int| 0 <= i < j < self@.seen.len() implies #[trigger] self@.seen[i]
            != #[trigger] self@.seen[j] by {
            assert(self@.seen[i] == before.seen[i]);
            if j < before.seen.len() {
                assert(self@.seen[j] == before.seen[j]);
            }
        }
    }

    fn add_key(&mut self, hive: Hive, path: &str)
        requires
            old(self)@.is_tidy(),
        ensures
            final(self)@ == old(self)@.with_key(hive, path@),
            final(self)@.is_tidy(),
    {
        let name = match hive {
            Hive::LocalMachine => "HKLM",
            Hive::CurrentUser => "HKCU",
        };
        self.add(
            LeftoverItem {
                path: path_below(name, path),
                item_type: "Registry".to_owned(),
                size_hundredths: 0,
                selected: true,
            },
        );
    }

    /// Adds those of the paths that are remains and may be touched.
    pub fn scan_filesystem_residue(&mut self, found: &Vec<FoundPath>, context: &StrictScanContext)
        requires
            old(self)@.is_tidy(),
        ensures
            final(self)@ == old(self)@.with_paths(found@, *context),
            final(self)@.is_tidy(),
    {
        let ghost start = self@;
        let mut i: usize = 0;
        assert(found@.take(0) =~= seq![]);
        while i < found.len()
            invariant
                i <= found@.len(),
                self@ == start.with_paths(found@.take(i as int), *context),
                self@.is_tidy(),
            decreases found@.len() - i,
        {
            assert(found@.take(i + 1).drop_last() =~= found@.take(i as int));
            let one = &found[i];
            if !is_blacklisted_path(one.path.as_str())
                && matches_strict_leftover_path(one.path.as_str(), context) {
                let item_type = if one.is_dir {
                    "Folder".to_owned()
                } else {
                    "File".to_owned()
                };
                self.add(
                    LeftoverItem {
                        path: one.path.clone(),
                        item_type,
                        size_hundredths: one.size_hundredths,
                        selected: true,
                    },
                );
            }
            i = i + 1;
        }
        assert(found@.take(i as int) =~= found@);
    }

    /// Adds the keys of the entries that are those of the application.
    pub fn scan_registry_residue(
        &mut self,
        entries: &Vec<UninstallEntry>,
        context: &StrictScanContext,
    )
        requires
            old(self)@.is_tidy(),
        ensures
            final(self)@ == old(self)@.with_entries(entries@, *context),
            final(self)@.is_tidy(),
    {
        let ghost start = self@;
        let mut i: usize = 0;
        assert(entries@.take(0) =~= seq![]);
        while i < entries.len()
            invariant
                i <= entries@.len(),
                self@ == start.with_entries(entries@.take(i as int), *context),
                self@.is_tidy(),
            decreases entries@.len() - i,
        {
            assert(entries@.take(i + 1).drop_last() =~= entries@.take(i as int));
            let entry = &entries[i];
            if matches_registry_key_strict(entry, context) {
                self.add_key(entry.hive, entry.path.as_str());
            }
            i = i + 1;
        }
        assert(entries@.take(i as int) =~= entries@);
    }

    /// Adds the publisher's keys that are those of the application and may be
    /// deleted.
    pub fn scan_publisher_registry_residue(
        &mut self,
        keys: &Vec<PublisherKey>,
        context: &StrictScanContext,
    )
        requires
            old(self)@.is_tidy(),
        ensures
            final(self)@ == old(self)@.with_publisher_keys(keys@, *context),
            final(self)@.is_tidy(),
    {
        let ghost start = self@;
        let mut i: usize = 0;
        assert(keys@.take(0) =~= seq![]);
        while i < keys.len()
            invariant
                i <= keys@.len(),
                self@ == start.with_publisher_keys(keys@.take(i as int), *context),
                self@.is_tidy(),
            decreases keys@.len() - i,
        {
            assert(keys@.take(i + 1).drop_last() =~= keys@.take(i as int));
            let key = &keys[i];
            if let Some(publisher) = &context.publisher_name {
                let parent = path_below(key.root_path.as_str(), publisher.as_str());
                let path = path_below(parent.as_str(), key.name.as_str());
                if !publisher.as_str().is_empty() && is_named_like_application(
                    key.name.as_str(),
                    context,
                ) && key.facts.opens {
                    let keywords = vec![publisher.clone()];
                    assert(keywords@ =~= seq![*publisher]);
                    if is_safe_registry_cleanup_target(path.as_str(), &key.facts, &keywords) {
                        self.add_key(key.hive, path.as_str());
                    }
                }
            }
            i = i + 1;
        }
        assert(keys@.take(i as int) =~= keys@);
    }

    /// Adds the file associations that are those of the application.
    pub fn scan_classes_registry_residue(
        &mut self,
        keys: &Vec<ClassKey>,
        context: &StrictScanContext,
    )
        requires
            old(self)@.is_tidy(),
        ensures
            final(self)@ == old(self)@.with_class_keys(keys@, *context),
            final(self)@.is_tidy(),
    {
        let ghost start = self@;
        let mut i: usize = 0;
        assert(keys@.take(0) =~= seq![]);
        while i < keys.len()
            invariant
                i <= keys@.len(),
                self@ == start.with_class_keys(keys@.take(i as int), *context),
                self@.is_tidy(),
            decreases keys@.len() - i,
        {
            assert(keys@.take(i + 1).drop_last() =~= keys@.take(i as int));
            let key = &keys[i];
            let lower = text::to_lowercase(key.name.as_str());
            if text::contains(lower.as_str(), context.app_folder_name.as_str()) {
                let path = path_below(key.root_path.as_str(), key.name.as_str());
                self.add_key(key.hive, path.as_str());
            }
            i = i + 1;
        }
        assert(keys@.take(i as int) =~= keys@);
    }
}

fn is_named_like_application(name: &str, context: &StrictScanContext) -> (r: bool)
    ensures
        r == (is_named_like_folder(text::lowercase(name@), *context) || is_named_like_place(
            text::lowercase(name@),
            *context,
        )),
{
    let lower = text::to_lowercase(name);
    let folder = context.app_folder_name.as_str();
    if text::contains(lower.as_str(), folder) || text::contains(folder, lower.as_str()) {
        return true;
    }
    match &context.install_location {
        Some(location) => {
            let parts = text::split(location.as_str(), CharSet::One('\\'));
            assert(text::texts(parts@).last() == parts@.last()@);
            let last = parts[parts.len() - 1].as_str();
            let last_lower = text::to_lowercase(last);
            text::contains(lower.as_str(), last) || text::contains(
                last_lower.as_str(),
                lower.as_str(),
            )
        },
        None => false,
    }
}

/// Where remains are searched: in the given directories that are not blank,
/// each once and in order.
pub fn build_scan_roots(
    app_data: &str,
    local_app_data: &str,
    install_location: &Option<String>,
    found_locations: Vec<String>,
) -> (r: Vec<String>)
    ensures
        forall|t: Seq<char>| #[trigger]
            list::holds_text(r@, t) <==> (text::trimmed(t, CharSet::Whitespace).len() > 0 && (t
                == app_data@ || t == local_app_data@ || t == "C:\\ProgramData"@ || (
            install_location is Some && install_location->0@ == t) || list::holds_text(
                found_locations@,
                t,
            ))),
        forall|i: int, j: int|
            0 <= i < j < r@.len() ==> text::text_before(
                (#[trigger] r@[i])@,
                (#[trigger] r@[j])@,
            ),
{
    let mut roots: Vec<String> = Vec::new();
    add_root(&mut roots, app_data);
    add_root(&mut roots, local_app_data);
    add_root(&mut roots, "C:\\ProgramData");
    if let Some(location) = install_location {
        add_root(&mut roots, location.as_str());
    }
    let ghost start = roots@;
    let mut i: usize = 0;
    while i < found_locations.len()
        invariant
            i <= found_locations@.len(),
            forall|t: Seq<char>| #[trigger]
                list::holds_text(roots@, t) <==> (list::holds_text(start, t) || (text::trimmed(
                    t,
                    CharSet::Whitespace,
                ).len() > 0 && list::holds_text(found_locations@.take(i as int), t))),
        decreases found_locations@.len() - i,
    {
        proof {
            list::lemma_holds_text_push(found_locations@.take(i as int), found_locations@[i as int]);
        }
        assert(found_locations@.take(i + 1) =~= found_locations@.take(i as int).push(
            found_locations@[i as int],
        ));
        add_root(&mut roots, found_locations[i].as_str());
        i = i + 1;
    }
    assert(found_locations@.take(i as int) =~= found_locations@);
    list::sorted_texts(roots)
}

/// Adds a directory unless it is blank.
fn add_root(roots: &mut Vec<String>, path: &str)
    ensures
        forall|t: Seq<char>| #[trigger]
            list::holds_text(final(roots)@, t) <==> (list::holds_text(old(roots)@, t) || (
            text::trimmed(t, CharSet::Whitespace).len() > 0 && t == path@)),
{
    let blank = text::trim(path, CharSet::Whitespace);
    if !blank.as_str().is_empty() {
        let root = path.to_owned();
        proof {
            list::lemma_holds_text_push(roots@, root);
        }
        roots.push(root);
    }
}

/// What was found, the largest first; of equal size in the order of finding.
pub fn scan_app_residue(scan: ResidueScan) -> (r: Vec<LeftoverItem>)
    ensures
        list::is_stable_sort(scan.items@, r@),
{
    list::stable_sort(scan.items)
}

/// No path is listed twice, not even in another case.
pub proof fn law_no_remain_is_listed_twice(scan: ResidueScan, listed: Seq<LeftoverItem>)
    requires
        scan@.is_tidy(),
        list::is_stable_sort(scan.items@, listed),
    ensures
        forall|i: int, j: int|
            0 <= i < j < listed.len() ==> text::lowercase((#[trigger] listed[i]).path@)
                != text::lowercase((#[trigger] listed[j]).path@),
{
    let p = choose|p: Seq<int>| list::is_stable_rearrangement(scan.items@, listed, p);
    assert forall|i: int, j: int| 0 <= i < j < listed.len() implies text::lowercase(
        (#[trigger] listed[i]).path@,
    ) != text::lowercase((#[trigger] listed[j]).path@) by {
        assert(0 <= p[i] < scan.items@.len() && 0 <= p[j] < scan.items@.len() && p[i] != p[j]);
        assert(scan@.seen[p[i]] == text::lowercase(scan@.items[p[i]].path));
        assert(scan@.seen[p[j]] == text::lowercase(scan@.items[p[j]].path));
    }
}

/// What is larger is listed before what is smaller.
pub proof fn law_larger_remains_come_first(scan: ResidueScan, listed: Seq<LeftoverItem>)
    requires
        list::is_stable_sort(scan.items@, listed),
    ensures
        forall|i: int, j: int|
            0 <= i < j < listed.len() ==> (#[trigger] listed[i]).size_hundredths >= (
            #[trigger] listed[j]).size_hundredths,
{
    let p = choose|p: Seq<int>| list::is_stable_rearrangement(scan.items@, listed, p);
    assert forall|i: int, j: int| 0 <= i < j < listed.len() implies (
    #[trigger] listed[i]).size_hundredths >= (#[trigger] listed[j]).size_hundredths by {
        assert(!listed[j].before(listed[i]));
    }
}

} // verus!
