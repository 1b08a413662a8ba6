//! A scan that reports what it finds as it goes.

#![verifier::loop_isolation(false)]

use vstd::prelude::*;

use super::cache::{copy_apps, AppCache};
use super::scan_rules::{normalize_path, normalized_path};
use super::scanner::{
    by_name, dedup_subdirectory_apps, is_deduped, merge_new_apps, new_apps, place, sort_by_name,
    COLD_START_SECS, EARLY_EXIT_APP_COUNT, REGISTRY_CACHE_TTL_SECS,
};
use super::snapshot::{are_with_icon_urls, attach_icon_urls, icon_url, icon_url_for_path};
use crate::list;
use crate::list::{holds_text, has_text};
use crate::migration;
use crate::migration::ProcessInfo;
use crate::models::{InstalledApp, ProcessLockResult};
use crate::text;

verus! {

/// An icon that was found for an application.
#[derive(Debug)]
pub struct IconUpdate {
    pub install_location: String,
    pub icon_base64: String,
    pub icon_url: String,
}

/// The size that was found for an application.
#[derive(Debug)]
pub struct SizeUpdate {
    pub install_location: String,
    pub size_kb: u64,
}

/// What a scan has come to.
#[derive(Debug)]
pub struct ScanProgressEvent {
    /// `snapshot`, `tier1`, `tier2`, `tier3`, `icons`, `sizes`, `sizes_done` or
    /// `done`.
    pub phase: &'static str,
    /// The applications that this step adds.
    pub apps: Vec<InstalledApp>,
    pub icon_updates: Vec<IconUpdate>,
    pub size_updates: Vec<SizeUpdate>,
    /// How many applications there are now.
    pub total_count: usize,
    pub is_final: bool,
}

/// A remark on how a scan is made.
#[derive(Debug)]
pub struct ScanNoticeEvent {
    pub code: &'static str,
    pub message: &'static str,
}

/// Whether an event reports applications and nothing else.
pub open spec fn is_report(
    e: ScanProgressEvent,
    phase: Seq<char>,
    apps: Seq<InstalledApp>,
    total: int,
    is_final: bool,
) -> bool {
    &&& e.phase@ == phase
    &&& e.apps@ == apps
    &&& e.icon_updates@.len() == 0
    &&& e.size_updates@.len() == 0
    &&& e.total_count == total
    &&& e.is_final == is_final
}

fn report(phase: &'static str, apps: Vec<InstalledApp>, total: usize, is_final: bool) -> (r:
    ScanProgressEvent)
    ensures
        is_report(r, phase@, apps@, total as int, is_final),
{
    ScanProgressEvent {
        phase,
        apps,
        icon_updates: Vec::new(),
        size_updates: Vec::new(),
        total_count: total,
        is_final,
    }
}

/// What a scan asks for next.
#[derive(Clone, Copy, Debug, PartialEq, Eq, Structural)]
pub enum ScanStage {
    /// The applications in the registry.
    ReadRegistry,
    /// Where links at the known places lead.
    FollowLinks,
    /// The applications behind shortcuts.
    ReadShortcuts,
    /// How long the system has been running.
    ReadUptime,
    /// The applications in the file system.
    SearchFilesystem,
    /// The applications that are known to have been moved and are not in the
    /// list.
    FindMoved,
    /// Executables from which the icons of the next applications can be taken,
    /// in the order of the list.
    ReadIcons,
    /// The time.
    ReadClock,
    /// Nothing: the scan has ended.
    Finished,
}

/// What was found for a stage.
#[derive(Debug)]
pub enum ScanEvent {
    RegistryRead { apps: Vec<InstalledApp> },
    LinksFollowed { targets: Vec<String> },
    ShortcutsRead { apps: Vec<InstalledApp> },
    UptimeRead { seconds: u64 },
    FilesystemSearched { apps: Vec<InstalledApp> },
    MovedFound { apps: Vec<InstalledApp> },
    /// One entry for each application of the batch; what is missing counts as
    /// not found.
    IconsRead { executables: Vec<Option<String>> },
    /// In milliseconds.
    ClockRead { now: u64 },
}

/// A scan under way.
#[derive(Debug)]
pub struct StreamScan {
    /// Whether this is the scan at the start, which shows the stored list first.
    pub use_snapshot: bool,
    pub stage: ScanStage,
    pub apps: Vec<InstalledApp>,
    /// The places of the applications and of what links at them lead to.
    pub known: Vec<String>,
    /// How many applications of the list have been asked for their icons.
    pub icons: usize,
}

/// For how many applications icons are reported at a time.
pub const ICON_BATCH: usize = 20;

/// Whether a list of known places is the given one with the places of
/// applications.
pub open spec fn knows_also(known: Seq<String>, r: Seq<String>, apps: Seq<InstalledApp>) -> bool {
    &&& r.len() == known.len() + apps.len()
    &&& r.take(known.len() as int) == known
    &&& forall|i: int|
        0 <= i < apps.len() ==> (#[trigger] r[known.len() + i])@ == place(apps[i])
}

/// The known places and those of applications.
pub fn with_places(known: Vec<String>, apps: &Vec<InstalledApp>) -> (r: Vec<String>)
    ensures
        knows_also(known@, r@, apps@),
{
    let ghost first = known@;
    let mut r = known;
    let mut i: usize = 0;
    assert(r@.take(first.len() as int) =~= first);
    while i < apps.len()
        invariant
            i <= apps@.len(),
            r@.len() == first.len() + i,
            r@.take(first.len() as int) == first,
            forall|k: int|
                0 <= k < i ==> (#[trigger] r@[first.len() + k])@ == place(apps@[k]),
        decreases apps@.len() - i,
    {
        let ghost before = r@;
        r.push(normalize_path(apps[i].install_location.as_str()));
        assert(r@.take(first.len() as int) =~= before.take(first.len() as int));
        assert forall|k: int| 0 <= k < i + 1 implies (#[trigger] r@[first.len() + k])@ == place(
            apps@[k],
        ) by {
            if k < i {
                assert(before[first.len() + k]@ == place(apps@[k]));
            }
        }
        i = i + 1;
    }
    r
}

/// Whether a list of known places is the given one with the places that links
/// lead to.
pub open spec fn knows_targets(known: Seq<String>, r: Seq<String>, targets: Seq<String>) -> bool {
    &&& r.len() == known.len() + targets.len()
    &&& r.take(known.len() as int) == known
    &&& forall|i: int|
        0 <= i < targets.len() ==> (#[trigger] r[known.len() + i])@ == normalized_path(
            targets[i]@,
        )
}

fn with_targets(known: Vec<String>, targets: &Vec<String>) -> (r: Vec<String>)
    ensures
        knows_targets(known@, r@, targets@),
{
    let ghost first = known@;
    let mut r = known;
    let mut i: usize = 0;
    assert(r@.take(first.len() as int) =~= first);
    while i < targets.len()
        invariant
            i <= targets@.len(),
            r@.len() == first.len() + i,
            r@.take(first.len() as int) == first,
            forall|k: int|
                0 <= k < i ==> (#[trigger] r@[first.len() + k])@ == normalized_path(targets@[k]@),
        decreases targets@.len() - i,
    {
        let ghost before = r@;
        r.push(normalize_path(targets[i].as_str()));
        assert(r@.take(first.len() as int) =~= before.take(first.len() as int));
        assert forall|k: int| 0 <= k < i + 1 implies (#[trigger] r@[first.len() + k])@
            == normalized_path(targets@[k]@) by {
            if k < i {
                assert(before[first.len() + k]@ == normalized_path(targets@[k]@));
            }
        }
        i = i + 1;
    }
    r
}

/// Whether the file system is not searched: there are very many applications
/// already, or the system has only just started.
pub open spec fn skips_filesystem(count: nat, uptime: u64) -> bool {
    count >= EARLY_EXIT_APP_COUNT || uptime < COLD_START_SECS
}

/// What the user is told of how the scan at the start is made.
pub open spec fn notice_code(use_snapshot: bool, count: nat, uptime: u64) -> Option<Seq<char>> {
    if use_snapshot && uptime < COLD_START_SECS {
        Some("STARTUP_FILESYSTEM_SCAN_DEFERRED"@)
    } else if use_snapshot && !skips_filesystem(count, uptime) {
        Some("NON_SYSTEM_DRIVES_SCAN_DEFERRED"@)
    } else {
        None
    }
}

pub open spec fn notice_message(code: Seq<char>) -> Seq<char> {
    if code == "STARTUP_FILESYSTEM_SCAN_DEFERRED"@ {
        "系统刚启动或磁盘尚未预热，为避免机械硬盘持续寻道，启动阶段暂不进行深度文件系统扫描。当前首页先显示已识别的应用；如需完整识别非系统盘应用，请点击首页刷新按钮手动刷新。"@
    } else {
        "为减少机械硬盘启动时的随机寻道，启动阶段暂不递归扫描非系统盘根目录。当前首页先显示注册表、快捷方式和常见软件目录；如需完整识别非系统盘应用，请点击首页刷新按钮手动刷新。"@
    }
}

/// Whether a list is what was found without the applications inside others,
/// sorted.
pub open spec fn is_found_list(apps: Seq<InstalledApp>, r: Seq<InstalledApp>) -> bool {
    exists|outer: Seq<InstalledApp>| #[trigger]
        is_deduped(apps, outer) && list::is_sorted_by(outer, r, by_name())
}

/// Whether a list is what a scan ends with: a list with those that are known to
/// have been moved, sorted again, with icon URLs.
pub open spec fn is_final_list(
    apps: Seq<InstalledApp>,
    moved: Seq<InstalledApp>,
    r: Seq<InstalledApp>,
) -> bool {
    exists|sorted: Seq<InstalledApp>| #[trigger]
        list::is_sorted_by(apps + moved, sorted, by_name()) && are_with_icon_urls(sorted, r)
}

/// What an icon report says of an application.
pub open spec fn icon_view(update: IconUpdate) -> (Seq<char>, Seq<char>, Seq<char>) {
    (update.install_location@, update.icon_base64@, update.icon_url@)
}

pub open spec fn icon_views(updates: Seq<IconUpdate>) -> Seq<(Seq<char>, Seq<char>, Seq<char>)> {
    Seq::new(updates.len(), |i: int| icon_view(updates[i]))
}

/// The executable that was found for the application at a position.
pub open spec fn executable_at(executables: Seq<Option<String>>, i: int) -> Option<String> {
    if 0 <= i < executables.len() {
        executables[i]
    } else {
        None
    }
}

/// The icons that are reported for the first `n` of a number of applications,
/// in their order.
pub open spec fn icons_of(
    apps: Seq<InstalledApp>,
    executables: Seq<Option<String>>,
    n: int,
) -> Seq<(Seq<char>, Seq<char>, Seq<char>)>
    decreases n,
{
    if n <= 0 {
        seq![]
    } else {
        let before = icons_of(apps, executables, n - 1);
        let app = apps[n - 1];
        let executable = executable_at(executables, n - 1);
        if has_icon(app, executable) {
            before.push(
                (app.install_location@, seq![], icon_url(icon_source(app, executable))),
            )
        } else {
            before
        }
    }
}

/// Where the batch of applications ends that begins at a position.
pub open spec fn batch_end(from: int, count: int) -> int {
    if count - from <= ICON_BATCH {
        count
    } else {
        from + ICON_BATCH
    }
}

/// Whether an event reports icons and nothing else.
pub open spec fn is_icon_report(
    e: ScanProgressEvent,
    icons: Seq<(Seq<char>, Seq<char>, Seq<char>)>,
    total: int,
) -> bool {
    &&& e.phase@ == "icons"@
    &&& e.apps@.len() == 0
    &&& icon_views(e.icon_updates@) == icons
    &&& e.size_updates@.len() == 0
    &&& e.total_count == total
    &&& !e.is_final
}

/// Begins a scan. At the start the stored list, where there is one, is
/// reported first.
pub fn scan_all_streaming(use_snapshot: bool, stored: Option<Vec<InstalledApp>>) -> (r: (
    StreamScan,
    Option<ScanProgressEvent>,
))
    ensures
        r.0.use_snapshot == use_snapshot,
        r.0.stage == ScanStage::ReadRegistry,
        r.0.apps@.len() == 0,
        r.0.known@.len() == 0,
        r.0.icons == 0,
        r.0.well_formed(),
        match stored {
            Some(apps) if use_snapshot => r.1 matches Some(e) && is_report(
                e,
                "snapshot"@,
                apps@,
                apps@.len() as int,
                false,
            ),
            _ => r.1 is None,
        },
{
    let scan = StreamScan {
        use_snapshot,
        stage: ScanStage::ReadRegistry,
        apps: Vec::new(),
        known: Vec::new(),
        icons: 0,
    };
    match stored {
        Some(apps) => {
            if !use_snapshot {
                return (scan, None);
            }
            let total: usize = apps.len();
            (scan, Some(report("snapshot", apps, total, false)))
        },
        None => (scan, None),
    }
}

impl StreamScan {
    /// Whether no more applications have been asked for icons than there are,
    /// and all have been before the scan ends.
    pub open spec fn well_formed(self) -> bool {
        match self.stage {
            ScanStage::ReadIcons => self.icons < self.apps@.len(),
            ScanStage::ReadClock | ScanStage::Finished => self.icons == self.apps@.len(),
            _ => self.icons == 0,
        }
    }

    /// The stage once icons have been read for so many of a number of
    /// applications.
    pub open spec fn after_icons(icons: int, count: int) -> ScanStage {
        if icons < count {
            ScanStage::ReadIcons
        } else {
            ScanStage::ReadClock
        }
    }

    /// Whether `next` is what becomes of the scan and `now_cached` of the list
    /// in memory, and `report` is what is reported. An event that the stage does
    /// not ask for changes nothing; the list in memory changes at the end only.
    pub open spec fn becomes(
        self,
        event: ScanEvent,
        next: Self,
        report: Option<ScanProgressEvent>,
        cached: AppCache,
        now_cached: AppCache,
    ) -> bool {
        &&& next.use_snapshot == self.use_snapshot
        &&& !(self.stage is ReadClock && event is ClockRead) ==> now_cached == cached
        &&& match (self.stage, event) {
            (ScanStage::ReadRegistry, ScanEvent::RegistryRead { apps }) => {
                &&& next.stage == ScanStage::FollowLinks
                &&& next.apps@ == apps@
                &&& next.icons == 0
                &&& knows_also(self.known@, next.known@, apps@)
                &&& report matches Some(e) && is_report(
                    e,
                    "tier1"@,
                    apps@,
                    apps@.len() as int,
                    false,
                )
            },
            (ScanStage::FollowLinks, ScanEvent::LinksFollowed { targets }) => {
                &&& next.stage == ScanStage::ReadShortcuts
                &&& next.apps == self.apps
                &&& next.icons == 0
                &&& knows_targets(self.known@, next.known@, targets@)
                &&& report is None
            },
            (ScanStage::ReadShortcuts, ScanEvent::ShortcutsRead { apps }) => {
                &&& next.stage == ScanStage::ReadUptime
                &&& next.apps@ == self.apps@ + apps@
                &&& next.icons == 0
                &&& knows_also(self.known@, next.known@, apps@)
                &&& report matches Some(e) && is_report(
                    e,
                    "tier2"@,
                    apps@,
                    (self.apps@ + apps@).len() as int,
                    false,
                )
            },
            (ScanStage::ReadUptime, ScanEvent::UptimeRead { seconds }) => {
                &&& next.known == self.known
                &&& next.icons == 0
                &&& if skips_filesystem(self.apps@.len(), seconds) {
                    &&& next.stage == ScanStage::FindMoved
                    &&& is_found_list(self.apps@, next.apps@)
                    &&& report matches Some(e) && is_report(
                        e,
                        "tier3"@,
                        seq![],
                        self.apps@.len() as int,
                        false,
                    )
                } else {
                    &&& next.stage == ScanStage::SearchFilesystem
                    &&& next.apps == self.apps
                    &&& report is None
                }
            },
            (ScanStage::SearchFilesystem, ScanEvent::FilesystemSearched { apps }) => {
                &&& next.stage == ScanStage::FindMoved
                &&& is_found_list(self.apps@ + apps@, next.apps@)
                &&& next.known == self.known
                &&& next.icons == 0
                &&& report matches Some(e) && is_report(
                    e,
                    "tier3"@,
                    apps@,
                    (self.apps@ + apps@).len() as int,
                    false,
                )
            },
            (ScanStage::FindMoved, ScanEvent::MovedFound { apps }) => {
                &&& next.stage == Self::after_icons(0, next.apps@.len() as int)
                &&& is_final_list(self.apps@, apps@, next.apps@)
                &&& next.known == self.known
                &&& next.icons == 0
                &&& report is None
            },
            (ScanStage::ReadIcons, ScanEvent::IconsRead { executables }) => {
                let count = self.apps@.len() as int;
                let end = batch_end(self.icons as int, count);
                let icons = icons_of(
                    self.apps@.subrange(self.icons as int, end),
                    executables@,
                    end - self.icons,
                );
                &&& next.stage == Self::after_icons(end, count)
                &&& next.apps == self.apps
                &&& next.known == self.known
                &&& next.icons == end
                &&& match report {
                    Some(e) => icons.len() > 0 && is_icon_report(e, icons, count),
                    None => icons.len() == 0,
                }
            },
            (ScanStage::ReadClock, ScanEvent::ClockRead { now }) => {
                &&& next.stage == ScanStage::Finished
                &&& next.apps == self.apps
                &&& next.known == self.known
                &&& next.icons == self.icons
                &&& now_cached.apps@ == self.apps@
                &&& now_cached.last_scan_time == now
                &&& !now_cached.is_dirty
                &&& report matches Some(e) && is_report(
                    e,
                    "done"@,
                    seq![],
                    self.apps@.len() as int,
                    true,
                )
            },
            _ => next == self && report is None,
        }
    }

    /// Takes in what was found for the stage; what is to be reported of it is
    /// returned. The scan ends with its list in `cache`. Icons are reported in
    /// batches before the final report.
    pub fn advance(&mut self, event: ScanEvent, cache: &mut AppCache) -> (r: Option<
        ScanProgressEvent,
    >)
        requires
            old(self).well_formed(),
        ensures
            final(self).well_formed(),
            old(self).becomes(event, *final(self), r, *old(cache), *final(cache)),
    {
        match (self.stage, event) {
            (ScanStage::ReadRegistry, ScanEvent::RegistryRead { apps }) => {
                self.stage = ScanStage::FollowLinks;
                let total: usize = apps.len();
                let copies = copy_apps(&apps);
                let mut known: Vec<String> = Vec::new();
                std::mem::swap(&mut known, &mut self.known);
                self.known = with_places(known, &apps);
                self.apps = apps;
                Some(report("tier1", copies, total, false))
            },
            (ScanStage::FollowLinks, ScanEvent::LinksFollowed { targets }) => {
                self.stage = ScanStage::ReadShortcuts;
                let mut known: Vec<String> = Vec::new();
                std::mem::swap(&mut known, &mut self.known);
                self.known = with_targets(known, &targets);
                None
            },
            (ScanStage::ReadShortcuts, ScanEvent::ShortcutsRead { apps }) => {
                self.stage = ScanStage::ReadUptime;
                let copies = copy_apps(&apps);
                let mut known: Vec<String> = Vec::new();
                std::mem::swap(&mut known, &mut self.known);
                self.known = with_places(known, &apps);
                let mut found = apps;
                self.apps.append(&mut found);
                let total: usize = self.apps.len();
                Some(report("tier2", copies, total, false))
            },
            (ScanStage::ReadUptime, ScanEvent::UptimeRead { seconds }) => {
                if self.skips_filesystem(seconds) {
                    let total: usize = self.apps.len();
                    self.settle();
                    let nothing: Vec<InstalledApp> = Vec::new();
                    assert(nothing@ =~= Seq::<InstalledApp>::empty());
                    Some(report("tier3", nothing, total, false))
                } else {
                    self.stage = ScanStage::SearchFilesystem;
                    None
                }
            },
            (ScanStage::SearchFilesystem, ScanEvent::FilesystemSearched { apps }) => {
                let copies = copy_apps(&apps);
                let mut found = apps;
                self.apps.append(&mut found);
                let total: usize = self.apps.len();
                self.settle();
                Some(report("tier3", copies, total, false))
            },
            (ScanStage::FindMoved, ScanEvent::MovedFound { apps }) => {
                let mut found: Vec<InstalledApp> = Vec::new();
                std::mem::swap(&mut found, &mut self.apps);
                self.apps = complete_list(found, apps);
                self.stage = if self.apps.len() > 0 {
                    ScanStage::ReadIcons
                } else {
                    ScanStage::ReadClock
                };
                None
            },
            (ScanStage::ReadIcons, ScanEvent::IconsRead { executables }) => {
                let total: usize = self.apps.len();
                let end: usize = if total - self.icons <= ICON_BATCH {
                    total
                } else {
                    self.icons + ICON_BATCH
                };
                let icon_updates = icon_batch(&self.apps, self.icons, end, &executables);
                self.icons = end;
                if end == total {
                    self.stage = ScanStage::ReadClock;
                }
                assert(icon_views(icon_updates@).len() == icon_updates@.len());
                if icon_updates.len() == 0 {
                    return None;
                }
                Some(
                    ScanProgressEvent {
                        phase: "icons",
                        apps: Vec::new(),
                        icon_updates,
                        size_updates: Vec::new(),
                        total_count: total,
                        is_final: false,
                    },
                )
            },
            (ScanStage::ReadClock, ScanEvent::ClockRead { now }) => {
                self.stage = ScanStage::Finished;
                cache.apps = copy_apps(&self.apps);
                cache.last_scan_time = now;
                cache.is_dirty = false;
                let total: usize = self.apps.len();
                let nothing: Vec<InstalledApp> = Vec::new();
                assert(nothing@ =~= Seq::<InstalledApp>::empty());
                Some(report("done", nothing, total, true))
            },
            _ => None,
        }
    }

    /// Removes the applications inside others and sorts the rest; what was
    /// moved is then asked for against this list.
    fn settle(&mut self)
        ensures
            final(self).stage == ScanStage::FindMoved,
            is_found_list(old(self).apps@, final(self).apps@),
            final(self).use_snapshot == old(self).use_snapshot,
            final(self).known == old(self).known,
            final(self).icons == old(self).icons,
    {
        let mut found: Vec<InstalledApp> = Vec::new();
        std::mem::swap(&mut found, &mut self.apps);
        dedup_subdirectory_apps(&mut found);
        assert(is_deduped(old(self).apps@, found@));
        self.apps = sort_by_name(found);
        self.stage = ScanStage::FindMoved;
    }

    /// The applications whose icons are asked for next.
    pub fn icon_range(&self) -> (r: (usize, usize))
        requires
            self.well_formed(),
            self.stage is ReadIcons,
        ensures
            r.0 == self.icons,
            r.1 == batch_end(self.icons as int, self.apps@.len() as int),
            r.0 < r.1 <= self.apps@.len(),
    {
        let total: usize = self.apps.len();
        if total - self.icons <= ICON_BATCH {
            (self.icons, total)
        } else {
            (self.icons, self.icons + ICON_BATCH)
        }
    }

    /// Whether the file system is not searched.
    pub fn skips_filesystem(&self, uptime: u64) -> (r: bool)
        ensures
            r == skips_filesystem(self.apps@.len(), uptime),
    {
        self.apps.len() >= EARLY_EXIT_APP_COUNT || uptime < COLD_START_SECS
    }

    /// Whether disks other than the system's are searched from their roots.
    pub fn searches_other_drives(&self) -> (r: bool)
        ensures
            r == !self.use_snapshot,
    {
        !self.use_snapshot
    }

    /// What the user is told of how the scan is made.
    pub fn notice(&self, uptime: u64) -> (r: Option<ScanNoticeEvent>)
        ensures
            match r {
                Some(e) => notice_code(self.use_snapshot, self.apps@.len(), uptime) == Some(e.code@)
                    && e.message@ == notice_message(e.code@),
                None => notice_code(self.use_snapshot, self.apps@.len(), uptime) is None,
            },
    {
        proof {
            reveal_strlit("STARTUP_FILESYSTEM_SCAN_DEFERRED");
            reveal_strlit("NON_SYSTEM_DRIVES_SCAN_DEFERRED");
            assert("STARTUP_FILESYSTEM_SCAN_DEFERRED"@[0] != "NON_SYSTEM_DRIVES_SCAN_DEFERRED"@[0]);
        }
        if self.use_snapshot && uptime < COLD_START_SECS {
            Some(
                ScanNoticeEvent {
                    code: "STARTUP_FILESYSTEM_SCAN_DEFERRED",
                    message: "系统刚启动或磁盘尚未预热，为避免机械硬盘持续寻道，启动阶段暂不进行深度文件系统扫描。当前首页先显示已识别的应用；如需完整识别非系统盘应用，请点击首页刷新按钮手动刷新。",
                },
            )
        } else if self.use_snapshot && !self.skips_filesystem(uptime) {
            Some(
                ScanNoticeEvent {
                    code: "NON_SYSTEM_DRIVES_SCAN_DEFERRED",
                    message: "为减少机械硬盘启动时的随机寻道，启动阶段暂不递归扫描非系统盘根目录。当前首页先显示注册表、快捷方式和常见软件目录；如需完整识别非系统盘应用，请点击首页刷新按钮手动刷新。",
                },
            )
        } else {
            None
        }
    }
}

/// The icons of a batch of applications.
fn icon_batch(
    apps: &Vec<InstalledApp>,
    from: usize,
    to: usize,
    executables: &Vec<Option<String>>,
) -> (r: Vec<IconUpdate>)
    requires
        from <= to <= apps@.len(),
    ensures
        icon_views(r@) == icons_of(
            apps@.subrange(from as int, to as int),
            executables@,
            to - from,
        ),
{
    let ghost batch = apps@.subrange(from as int, to as int);
    let mut r: Vec<IconUpdate> = Vec::new();
    let mut i: usize = 0;
    assert(icon_views(r@) =~= seq![]);
    while i < to - from
        invariant
            from <= to <= apps@.len(),
            i <= to - from,
            batch == apps@.subrange(from as int, to as int),
            icon_views(r@) == icons_of(batch, executables@, i as int),
        decreases to - from - i,
    {
        assert(batch[i as int] == apps@[from + i]);
        let found = if i < executables.len() {
            icon_update(&apps[from + i], &executables[i])
        } else {
            icon_update(&apps[from + i], &None)
        };
        if let Some(update) = found {
            let ghost before = r@;
            r.push(update);
            assert(update.icon_base64@ =~= Seq::<char>::empty());
            assert(icon_views(r@) =~= icon_views(before).push(icon_view(update)));
        }
        i = i + 1;
    }
    r
}

/// The list that a scan ends with.
fn complete_list(found: Vec<InstalledApp>, moved: Vec<InstalledApp>) -> (r: Vec<InstalledApp>)
    ensures
        is_final_list(found@, moved@, r@),
{
    let mut apps = found;
    let mut extra = moved;
    apps.append(&mut extra);
    assert(apps@ =~= found@ + moved@);
    let mut apps = sort_by_name(apps);
    let ghost sorted = apps@;
    attach_icon_urls(&mut apps);
    assert(list::is_sorted_by(found@ + moved@, sorted, by_name()));
    apps
}

/// What has been reported once a stage is reached, with so many icon reports.
pub open spec fn reported_before(stage: ScanStage, icons: nat) -> Seq<Seq<char>> {
    let found = seq!["tier1"@, "tier2"@, "tier3"@];
    match stage {
        ScanStage::ReadRegistry => seq![],
        ScanStage::FollowLinks | ScanStage::ReadShortcuts => seq!["tier1"@],
        ScanStage::ReadUptime | ScanStage::SearchFilesystem => seq!["tier1"@, "tier2"@],
        ScanStage::FindMoved => found,
        ScanStage::ReadIcons | ScanStage::ReadClock => found + Seq::new(icons, |i: int| "icons"@),
        ScanStage::Finished => (found + Seq::new(icons, |i: int| "icons"@)).push("done"@),
    }
}

/// The phases of reports, without the steps that report nothing.
pub open spec fn phases(reports: Seq<Option<ScanProgressEvent>>) -> Seq<Seq<char>>
    decreases reports.len(),
{
    if reports.len() == 0 {
        seq![]
    } else {
        let before = phases(reports.drop_last());
        match reports.last() {
            Some(e) => before.push(e.phase@),
            None => before,
        }
    }
}

/// A step of a scan: what it is given, what it reports, and the list in memory
/// before and after it. Between two steps that list may change.
pub struct ScanStep {
    pub event: ScanEvent,
    pub report: Option<ScanProgressEvent>,
    pub cached: AppCache,
    pub now_cached: AppCache,
}

/// What a number of steps report.
pub open spec fn reports_of(steps: Seq<ScanStep>) -> Seq<Option<ScanProgressEvent>> {
    Seq::new(steps.len(), |i: int| steps[i].report)
}

/// Whether a scan goes through the given states.
pub open spec fn is_run(scans: Seq<StreamScan>, steps: Seq<ScanStep>) -> bool {
    &&& scans.len() == steps.len() + 1
    &&& scans[0].stage == ScanStage::ReadRegistry
    &&& forall|i: int|
        #![trigger scans[i], steps[i]]
        0 <= i < steps.len() ==> scans[i].becomes(
            steps[i].event,
            scans[i + 1],
            steps[i].report,
            steps[i].cached,
            steps[i].now_cached,
        )
}

/// Whether a step ends a scan: it makes the final report, which counts the
/// applications, and leaves them in memory as the current list.
pub open spec fn ends_scan(step: ScanStep, scan: StreamScan) -> bool {
    &&& step.report matches Some(e) && e.is_final && e.total_count == scan.apps@.len()
    &&& step.now_cached.apps@ == scan.apps@
    &&& !step.now_cached.is_dirty
}

/// Whatever events a scan is given and in whatever order, it reports the
/// registry, then the shortcuts, then the file system, each once, the file
/// system also where it is not searched; then the icons, in as many reports as
/// it takes; then the end, once. Only the last report is final. A scan that has
/// ended has left its list in memory.
pub proof fn law_reports_come_in_order(scans: Seq<StreamScan>, steps: Seq<ScanStep>)
    requires
        is_run(scans, steps),
    ensures
        exists|icons: nat| phases(reports_of(steps)) == #[trigger] reported_before(
            scans.last().stage,
            icons,
        ),
        forall|i: int|
            0 <= i < steps.len() ==> ((#[trigger] steps[i]).report matches Some(e) ==> (e.is_final
                <==> e.phase@ == "done"@)),
        scans.last().stage == ScanStage::Finished ==> exists|i: int|
            0 <= i < steps.len() && ends_scan(#[trigger] steps[i], scans.last()),
    decreases steps.len(),
{
    reveal_strlit("tier1");
    reveal_strlit("tier2");
    reveal_strlit("tier3");
    reveal_strlit("icons");
    reveal_strlit("done");
    assert("tier1"@.len() == 5 && "tier2"@.len() == 5 && "tier3"@.len() == 5 && "icons"@.len() == 5
        && "done"@.len() == 4);
    let all = reports_of(steps);
    if steps.len() == 0 {
        assert(phases(all) =~= reported_before(scans.last().stage, 0));
    } else {
        let n = steps.len() - 1;
        let front = scans.drop_last();
        let earlier = steps.drop_last();
        assert forall|i: int|
            #![trigger front[i], earlier[i]]
            0 <= i < earlier.len() implies front[i].becomes(
            earlier[i].event,
            front[i + 1],
            earlier[i].report,
            earlier[i].cached,
            earlier[i].now_cached,
        ) by {
            assert(scans[i].becomes(
                steps[i].event,
                scans[i + 1],
                steps[i].report,
                steps[i].cached,
                steps[i].now_cached,
            ));
        }
        law_reports_come_in_order(front, earlier);
        let step = steps[n];
        assert(scans[n].becomes(
            step.event,
            scans[n + 1],
            step.report,
            step.cached,
            step.now_cached,
        ));
        let m = choose|icons: nat|
            phases(reports_of(earlier)) == #[trigger] reported_before(front.last().stage, icons);
        assert(all.drop_last() =~= reports_of(earlier));
        assert(all.last() == step.report);
        let old_stage = scans[n].stage;
        let new_stage = scans[n + 1].stage;
        if old_stage is ReadIcons && step.report is Some {
            assert(phases(all) =~= reported_before(new_stage, m + 1));
        } else if old_stage is FindMoved {
            assert(phases(all) =~= reported_before(new_stage, 0));
        } else {
            assert(phases(all) =~= reported_before(new_stage, m));
        }
        assert forall|i: int| 0 <= i < steps.len() implies ((#[trigger] steps[i]).report matches Some(
            e,
        ) ==> (e.is_final <==> e.phase@ == "done"@)) by {
            if i < n {
                assert(earlier[i] == steps[i]);
            }
        }
        if new_stage == ScanStage::Finished {
            if old_stage == ScanStage::Finished {
                let i = choose|i: int|
                    0 <= i < earlier.len() && ends_scan(#[trigger] earlier[i], front.last());
                assert(steps[i] == earlier[i]);
                assert(ends_scan(steps[i], scans.last()));
            } else {
                assert(ends_scan(steps[n], scans.last()));
            }
        }
    }
}

/// Whether a list is what a scan without reports ends with: with very many
/// applications they are only sorted, else those inside others are removed
/// first.
pub open spec fn is_scanned_list(
    known: Seq<InstalledApp>,
    filesystem: Seq<InstalledApp>,
    r: Seq<InstalledApp>,
) -> bool {
    if known.len() >= EARLY_EXIT_APP_COUNT {
        list::is_sorted_by(known, r, by_name())
    } else {
        exists|outer: Seq<InstalledApp>| #[trigger]
            is_deduped(known + filesystem, outer) && list::is_sorted_by(outer, r, by_name())
    }
}

/// Puts the list of a scan without reports together from what the registry and
/// shortcuts and what the file system hold. The latter does not count where
/// there are very many applications already.
pub fn scan_all(known: Vec<InstalledApp>, filesystem: Vec<InstalledApp>) -> (r: Vec<InstalledApp>)
    ensures
        is_scanned_list(known@, filesystem@, r@),
{
    if known.len() >= EARLY_EXIT_APP_COUNT {
        return sort_by_name(known);
    }
    let ghost first = known@;
    let mut apps = known;
    let mut found = filesystem;
    apps.append(&mut found);
    assert(apps@ =~= first + filesystem@);
    dedup_subdirectory_apps(&mut apps);
    let ghost outer = apps@;
    assert(is_deduped(first + filesystem@, outer));
    sort_by_name(apps)
}

/// What an incremental scan reads.
#[derive(Debug, Clone, Copy, PartialEq, Eq, Structural)]
pub enum IncrementalScan {
    /// Nothing: the list of the last scan is recent.
    Reuse,
    /// The registry only: what shortcuts and the file system gave is kept.
    RefreshRegistry,
    /// Everything: there has been no scan.
    ScanAll,
}

/// What an incremental scan reads, given the age of the last scan in seconds.
pub fn scan_incremental(age_secs: Option<u64>) -> (r: IncrementalScan)
    ensures
        r == match age_secs {
            Some(age) => if age < REGISTRY_CACHE_TTL_SECS {
                IncrementalScan::Reuse
            } else {
                IncrementalScan::RefreshRegistry
            },
            None => IncrementalScan::ScanAll,
        },
{
    match age_secs {
        Some(age) => if age < REGISTRY_CACHE_TTL_SECS {
            IncrementalScan::Reuse
        } else {
            IncrementalScan::RefreshRegistry
        },
        None => IncrementalScan::ScanAll,
    }
}

/// Whether an application was found elsewhere than in the registry.
pub open spec fn is_unregistered() -> spec_fn(InstalledApp) -> bool {
    |app: InstalledApp| app.registry_path@.len() == 0
}

/// Whether a list is what becomes of an earlier one when the registry is read
/// again: what the registry holds now and what was found elsewhere before, at
/// other places, without what lies inside others, sorted.
pub open spec fn is_refreshed_list(
    registry: Seq<InstalledApp>,
    cached: Seq<InstalledApp>,
    r: Seq<InstalledApp>,
) -> bool {
    exists|known: Seq<String>, outer: Seq<InstalledApp>|
        #![trigger knows_also(seq![], known, registry), list::is_sorted_by(outer, r, by_name())]
        knows_also(seq![], known, registry) && is_deduped(
            registry + new_apps(cached.filter(is_unregistered()), known),
            outer,
        ) && list::is_sorted_by(outer, r, by_name())
}

/// Puts what the registry holds now together with what was found elsewhere
/// before.
pub fn refresh_registry(registry: Vec<InstalledApp>, cached: Vec<InstalledApp>) -> (r: Vec<
    InstalledApp,
>)
    ensures
        is_refreshed_list(registry@, cached@, r@),
{
    let ghost all = cached@;
    let mut rest = list::Queue::of(cached);
    let mut elsewhere: Vec<InstalledApp> = Vec::new();
    let ghost mut n: int = 0;
    proof {
        reveal(Seq::filter);
    }
    assert(rest@ =~= all.skip(0));
    while rest.len() > 0
        invariant
            0 <= n <= all.len(),
            rest@ == all.skip(n),
            elsewhere@ == all.take(n).filter(is_unregistered()),
        decreases rest@.len(),
    {
        let app = rest.take_first();
        assert(app == all[n]);
        assert(rest@ =~= all.skip(n + 1));
        assert(all.take(n + 1).drop_last() =~= all.take(n));
        proof {
            reveal(Seq::filter);
        }
        if app.registry_path.as_str().is_empty() {
            elsewhere.push(app);
        }
        proof {
            n = n + 1;
        }
    }
    assert(all.take(n) =~= all);
    let none: Vec<String> = Vec::new();
    assert(none@ =~= Seq::<String>::empty());
    let known = with_places(none, &registry);
    let mut found = merge_new_apps(elsewhere, &known);
    let ghost first = registry@;
    let ghost second = found@;
    let mut apps = registry;
    apps.append(&mut found);
    assert(apps@ =~= first + second);
    dedup_subdirectory_apps(&mut apps);
    let ghost outer = apps@;
    assert(is_deduped(first + second, outer));
    let r = sort_by_name(apps);
    assert(knows_also(seq![], known@, first) && list::is_sorted_by(outer, r@, by_name()));
    r
}

/// The path from which an application's icon is taken: its own, or that of an
/// executable in its directory.
pub open spec fn icon_source(app: InstalledApp, fallback: Option<String>) -> Seq<char> {
    if app.display_icon@.len() > 0 {
        app.display_icon@
    } else {
        match fallback {
            Some(path) => path@,
            None => seq![],
        }
    }
}

/// Whether an icon is reported for an application.
pub open spec fn has_icon(app: InstalledApp, fallback: Option<String>) -> bool {
    icon_source(app, fallback).len() > 0 && icon_url(icon_source(app, fallback)).len() > 0
}

/// The icon that is reported for an application, if it has one.
pub fn icon_update(app: &InstalledApp, fallback: &Option<String>) -> (r: Option<IconUpdate>)
    ensures
        match r {
            Some(update) => has_icon(*app, *fallback) && update.install_location
                == app.install_location && update.icon_base64@.len() == 0 && update.icon_url@
                == icon_url(icon_source(*app, *fallback)),
            None => !has_icon(*app, *fallback),
        },
{
    let path = if !app.display_icon.as_str().is_empty() {
        app.display_icon.clone()
    } else {
        match fallback {
            Some(path) => path.clone(),
            None => String::new(),
        }
    };
    assert(path@ =~= icon_source(*app, *fallback));
    if path.as_str().is_empty() {
        return None;
    }
    let url = icon_url_for_path(path.as_str());
    if url.as_str().is_empty() {
        return None;
    }
    Some(
        IconUpdate {
            install_location: app.install_location.clone(),
            icon_base64: String::new(),
            icon_url: url,
        },
    )
}

/// Whether an application is on the system disk.
pub open spec fn is_on_system_disk(app: InstalledApp) -> bool {
    text::has_prefix(text::uppercase(app.install_location@), "C:"@)
}

pub open spec fn on_system_disk() -> spec_fn(InstalledApp) -> bool {
    |app: InstalledApp| is_on_system_disk(app)
}

pub open spec fn on_other_disk() -> spec_fn(InstalledApp) -> bool {
    |app: InstalledApp| !is_on_system_disk(app)
}

/// The order in which sizes are measured: the system disk comes last.
pub fn size_order(apps: Vec<InstalledApp>) -> (r: Vec<InstalledApp>)
    ensures
        r@ == apps@.filter(on_other_disk()) + apps@.filter(on_system_disk()),
{
    let ghost all = apps@;
    let ghost mut n: int = 0;
    let mut rest = list::Queue::of(apps);
    let mut other: Vec<InstalledApp> = Vec::new();
    let mut system: Vec<InstalledApp> = Vec::new();
    assert(rest@ =~= all.skip(0));
    proof {
        reveal(Seq::filter);
    }
    while rest.len() > 0
        invariant
            0 <= n <= all.len(),
            rest@ == all.skip(n),
            other@ == all.take(n).filter(on_other_disk()),
            system@ == all.take(n).filter(on_system_disk()),
        decreases rest@.len(),
    {
        let app = rest.take_first();
        assert(app == all[n]);
        assert(rest@ =~= all.skip(n + 1));
        assert(all.take(n + 1).drop_last() =~= all.take(n));
        proof {
            reveal(Seq::filter);
        }
        let upper = text::to_uppercase(app.install_location.as_str());
        if text::starts_with(upper.as_str(), "C:") {
            system.push(app);
        } else {
            other.push(app);
        }
        proof {
            n = n + 1;
        }
    }
    assert(all.take(n) =~= all);
    let ghost front = other@;
    other.append(&mut system);
    assert(other@ =~= front + all.filter(on_system_disk()));
    other
}

/// How many sizes are measured side by side, and how long the pause between two
/// rounds is in milliseconds. On a system that has started within the last two
/// minutes there are fewer and longer pauses.
pub fn size_batches(uptime: u64) -> (r: (usize, u64))
    ensures
        r == if uptime < 120 {
            (4usize, 150u64)
        } else {
            (8usize, 50u64)
        },
{
    if uptime < 120 {
        (4, 150)
    } else {
        (8, 50)
    }
}

/// The size that is shown of an application before it is measured anew: the
/// bytes that are known from an earlier scan, where they are.
pub fn cached_size(install_location: &str, bytes: Option<u64>) -> (r: Option<SizeUpdate>)
    ensures
        match r {
            Some(update) => bytes is Some && update.install_location@ == install_location@
                && update.size_kb == bytes->0 / 1024,
            None => bytes is None,
        },
{
    match bytes {
        Some(bytes) => Some(
            SizeUpdate { install_location: install_location.to_owned(), size_kb: bytes / 1024 },
        ),
        None => None,
    }
}

/// The bytes that are kept of a measured size for later scans. Nothing is kept
/// of an empty or missing directory.
pub fn kept_size(update: &SizeUpdate) -> (r: Option<u64>)
    requires
        update.size_kb <= u64::MAX / 1024,
    ensures
        r == if update.size_kb > 0 {
            Some((update.size_kb * 1024) as u64)
        } else {
            None
        },
{
    if update.size_kb > 0 {
        Some(update.size_kb * 1024)
    } else {
        None
    }
}

/// What is known of a directory's size.
#[derive(Debug, Clone, Copy, PartialEq, Eq, Structural)]
pub enum SizeQuestion {
    /// A link whose target cannot be reached: its size is nothing.
    Unreachable,
    /// It has to be measured.
    Measure,
}

/// Whether an application's directory can be measured.
pub fn get_app_size(install_location: &str, present: bool, is_link: bool) -> (r: Result<
    SizeQuestion,
    String,
>)
    ensures
        match r {
            Ok(question) => question == (if present {
                SizeQuestion::Measure
            } else {
                SizeQuestion::Unreachable
            }) && (present || is_link),
            Err(message) => !present && !is_link && message@ == "目录不存在: "@ + install_location@,
        },
{
    if present {
        Ok(SizeQuestion::Measure)
    } else if is_link {
        Ok(SizeQuestion::Unreachable)
    } else {
        let mut message = "目录不存在: ".to_owned();
        message.push_str(install_location);
        Err(message)
    }
}

/// The texts of a list without those that stand in it before.
pub open spec fn first_texts(s: Seq<Seq<char>>) -> Seq<Seq<char>>
    decreases s.len(),
{
    if s.len() == 0 {
        seq![]
    } else if s.drop_last().contains(s.last()) {
        first_texts(s.drop_last())
    } else {
        first_texts(s.drop_last()).push(s.last())
    }
}

proof fn lemma_first_texts(s: Seq<Seq<char>>, t: Seq<char>)
    ensures
        first_texts(s).contains(t) <==> s.contains(t),
        s.len() > 0 ==> first_texts(s).len() > 0,
    decreases s.len(),
{
    if s.len() > 0 {
        let front = s.drop_last();
        lemma_first_texts(front, t);
        lemma_first_texts(front, s.last());
        if s.contains(t) {
            let i = choose|i: int| 0 <= i < s.len() && s[i] == t;
            if i < front.len() {
                assert(front[i] == t);
                let j = choose|j: int| 0 <= j < first_texts(front).len() && first_texts(front)[j] == t;
                assert(first_texts(s)[j] == t);
            } else if !front.contains(t) {
                assert(first_texts(s)[first_texts(s).len() - 1] == t);
            } else {
                let j = choose|j: int| 0 <= j < first_texts(front).len() && first_texts(front)[j] == t;
                assert(first_texts(s)[j] == t);
            }
        }
        if first_texts(s).contains(t) {
            let j = choose|j: int| 0 <= j < first_texts(s).len() && first_texts(s)[j] == t;
            if j < first_texts(front).len() {
                assert(first_texts(front)[j] == t);
                let i = choose|i: int| 0 <= i < front.len() && front[i] == t;
                assert(s[i] == t);
            } else {
                assert(s[s.len() - 1] == t);
            }
        }
    }
}

/// Which programs under a path are running, each name once.
pub fn check_process_locks(
    source_path: &str,
    source_present: bool,
    processes: &Vec<ProcessInfo>,
) -> (r: Result<ProcessLockResult, String>)
    ensures
        match r {
            Ok(locks) => source_present && text::texts(locks.processes@) == first_texts(
                migration::running_in(migration::process_views(processes@), source_path@),
            ) && locks.is_locked == (locks.processes@.len() > 0),
            Err(message) => !source_present && message@ == "源路径不存在: "@ + source_path@,
        },
{
    if !source_present {
        let mut message = "源路径不存在: ".to_owned();
        message.push_str(source_path);
        return Err(message);
    }
    let running = migration::running_processes(processes, source_path);
    let ghost all = text::texts(running@);
    let mut names: Vec<String> = Vec::new();
    let mut i: usize = 0;
    assert(text::texts(names@) =~= first_texts(all.take(0)));
    while i < running.len()
        invariant
            i <= running@.len(),
            all == text::texts(running@),
            text::texts(names@) == first_texts(all.take(i as int)),
        decreases running@.len() - i,
    {
        let name = &running[i];
        assert(all.take(i + 1).drop_last() =~= all.take(i as int));
        assert(all.take(i + 1).last() == name@);
        proof {
            lemma_first_texts(all.take(i as int), name@);
            lemma_holds_is_contains(names@, name@);
            text::lemma_texts_push(names@, *name);
        }
        if !has_text(&names, name.as_str()) {
            names.push(name.clone());
        }
        i = i + 1;
    }
    assert(all.take(i as int) =~= all);
    Ok(ProcessLockResult { is_locked: names.len() > 0, processes: names })
}

proof fn lemma_holds_is_contains(v: Seq<String>, t: Seq<char>)
    ensures
        holds_text(v, t) <==> text::texts(v).contains(t),
{
    if holds_text(v, t) {
        let i = choose|i: int| 0 <= i < v.len() && (#[trigger] v[i])@ == t;
        assert(text::texts(v)[i] == t);
    }
    if text::texts(v).contains(t) {
        let i = choose|i: int| 0 <= i < text::texts(v).len() && text::texts(v)[i] == t;
        assert(v[i]@ == t);
    }
}

} // verus!
