//! Reports of uninstallations that the user keeps.

#![verifier::loop_isolation(false)]

use vstd::prelude::*;

use super::uninstall_snapshot::{UninstallSnapshot, UninstallSnapshotDiff};
use crate::list::{is_stable_rearrangement, is_stable_sort, stable_sort, Queue, Ranked};
use crate::path;
use crate::text;
use crate::text::CharSet;

verus! {

/// How many reports are kept.
pub const MAX_KEPT_REPORTS: usize = 20;

/// How many characters of an application's name go into a file name.
pub const MAX_SLUG_LENGTH: usize = 40;

/// What is known of an uninstallation when its report is saved.
#[derive(Debug)]
pub struct UninstallReportInput {
    pub app_name: String,
    pub install_location: String,
    pub estimated_bytes: u64,
    pub uninstall_freed_bytes: u64,
    pub cleanup_freed_bytes: u64,
    pub failed_items: Vec<String>,
    pub scheduled_for_reboot: Vec<String>,
}

/// A report as it is stored.
#[derive(Debug)]
pub struct SavedUninstallReport {
    pub version: u32,
    /// Unix time in milliseconds.
    pub created_at: u64,
    pub app_name: String,
    pub install_location: String,
    pub estimated_bytes: u64,
    pub uninstall_freed_bytes: u64,
    pub cleanup_freed_bytes: u64,
    pub failed_items: Vec<String>,
    pub scheduled_for_reboot: Vec<String>,
    /// What was there before, if that was recorded of this application.
    pub snapshot: Option<UninstallSnapshot>,
    pub diff: Option<UninstallSnapshotDiff>,
}

/// Where a report was saved, and how many old ones were deleted.
#[derive(Debug)]
pub struct SaveReportOutcome {
    pub path: String,
    pub pruned_count: usize,
}

/// A character of a name as it stands in a file name: letters, digits, dots,
/// underscores and hyphens are kept.
pub open spec fn slug_char(c: char) -> char {
    if text::alphanumeric(c) || c == '.' || c == '_' || c == '-' {
        c
    } else {
        '_'
    }
}

/// A name of which only letters, digits, dots, underscores and hyphens are
/// kept.
pub open spec fn slug_chars(app_name: Seq<char>) -> Seq<char> {
    text::trimmed(app_name, CharSet::Whitespace).map_values(|c: char| slug_char(c))
}

/// The first characters of a text, at most as many as a slug may have.
pub open spec fn slug_cut(s: Seq<char>) -> Seq<char> {
    if s.len() <= MAX_SLUG_LENGTH {
        s
    } else {
        s.take(MAX_SLUG_LENGTH as int)
    }
}

/// What is left of a name without underscores and dots around it, cut to the
/// greatest length, where the cut leaves none of them at the end.
pub open spec fn slug_body(app_name: Seq<char>) -> Seq<char> {
    text::trimmed_end(
        slug_cut(text::trimmed(slug_chars(app_name), CharSet::Two('_', '.'))),
        CharSet::Two('_', '.'),
    )
}

/// The part of a file name that stands for an application.
pub open spec fn slug_of(app_name: Seq<char>) -> Seq<char> {
    let body = slug_body(app_name);
    if body.len() == 0 {
        "app"@
    } else {
        body
    }
}

/// The part of a file name that stands for an application.
pub fn sanitize_report_slug(app_name: &str) -> (r: String)
    ensures
        r@ == slug_of(app_name@),
{
    let blank = text::trim(app_name, CharSet::Whitespace);
    let v = text::chars_of(blank.as_str());
    let ghost mapped = slug_chars(app_name@);
    let mut safe = String::new();
    let mut i: usize = 0;
    assert(safe@ =~= mapped.take(0));
    while i < v.len()
        invariant
            v@ == blank@,
            mapped == blank@.map_values(|c: char| slug_char(c)),
            i <= v@.len(),
            safe@ == mapped.take(i as int),
        decreases v@.len() - i,
    {
        let c = v[i];
        let kept = text::is_alphanumeric(c) || c == '.' || c == '_' || c == '-';
        let d = if kept {
            c
        } else {
            '_'
        };
        safe.push(d);
        assert(mapped.take(i + 1) =~= mapped.take(i as int).push(d));
        i = i + 1;
    }
    assert(mapped.take(i as int) =~= mapped);
    let bare = text::trim(safe.as_str(), CharSet::Two('_', '.'));
    let w = text::chars_of(bare.as_str());
    let kept: usize = if w.len() <= MAX_SLUG_LENGTH {
        w.len()
    } else {
        MAX_SLUG_LENGTH
    };
    let short = text::string_of(&w, 0, kept);
    assert(short@ =~= slug_cut(bare@));
    let body = text::trim_end(short.as_str(), CharSet::Two('_', '.'));
    if body.as_str().is_empty() {
        return "app".to_owned();
    }
    body
}

/// Whether a character can do no harm in a file name.
pub open spec fn is_harmless(c: char) -> bool {
    text::alphanumeric(c) || c == '.' || c == '_' || c == '-'
}

/// Whatever an application is called, the part of a file name that stands for
/// it is not empty, not too long, holds letters, digits, dots, underscores and
/// hyphens only, and neither starts nor ends with an underscore or a dot; so it
/// never leads out of its directory and is never a hidden file.
pub proof fn law_slug_is_a_file_name(app_name: Seq<char>)
    ensures
        0 < slug_of(app_name).len() <= MAX_SLUG_LENGTH,
        forall|i: int|
            0 <= i < slug_of(app_name).len() ==> is_harmless(#[trigger] slug_of(app_name)[i]),
        slug_of(app_name).first() != '_' && slug_of(app_name).first() != '.',
        slug_of(app_name).last() != '_' && slug_of(app_name).last() != '.',
{
    reveal_strlit("app");
    let set = CharSet::Two('_', '.');
    let mapped = slug_chars(app_name);
    assert(forall|i: int| 0 <= i < mapped.len() ==> is_harmless(#[trigger] mapped[i]));
    lemma_trimming_keeps_harmless(mapped, set);
    let bare = text::trimmed(mapped, set);
    lemma_trimming_end_keeps_harmless(slug_cut(bare), set);
    lemma_nothing_is_left_to_trim(text::trimmed_start(mapped, set), set);
    lemma_nothing_is_left_at_the_start(mapped, set);
    lemma_nothing_is_left_to_trim(slug_cut(bare), set);
}

proof fn lemma_nothing_is_left_at_the_start(s: Seq<char>, set: CharSet)
    ensures
        text::trimmed_start(s, set).len() > 0 ==> !set.holds(text::trimmed_start(s, set)[0]),
    decreases s.len(),
{
    if s.len() > 0 && set.holds(s[0]) {
        lemma_nothing_is_left_at_the_start(s.drop_first(), set);
    }
}

/// What is left is a beginning of the text, and its last character stays.
proof fn lemma_nothing_is_left_to_trim(s: Seq<char>, set: CharSet)
    ensures
        text::trimmed_end(s, set).len() > 0 ==> !set.holds(text::trimmed_end(s, set).last()),
        text::trimmed_end(s, set).is_prefix_of(s),
    decreases s.len(),
{
    if s.len() > 0 && set.holds(s.last()) {
        lemma_nothing_is_left_to_trim(s.drop_last(), set);
    }
}

proof fn lemma_trimming_keeps_harmless(s: Seq<char>, set: CharSet)
    requires
        forall|i: int| 0 <= i < s.len() ==> is_harmless(#[trigger] s[i]),
    ensures
        forall|i: int|
            0 <= i < text::trimmed(s, set).len() ==> is_harmless(#[trigger] text::trimmed(s, set)[i]),
{
    lemma_trimming_start_keeps_harmless(s, set);
    lemma_trimming_end_keeps_harmless(text::trimmed_start(s, set), set);
}

proof fn lemma_trimming_start_keeps_harmless(s: Seq<char>, set: CharSet)
    requires
        forall|i: int| 0 <= i < s.len() ==> is_harmless(#[trigger] s[i]),
    ensures
        forall|i: int|
            0 <= i < text::trimmed_start(s, set).len() ==> is_harmless(
                #[trigger] text::trimmed_start(s, set)[i],
            ),
    decreases s.len(),
{
    if s.len() > 0 && set.holds(s[0]) {
        lemma_trimming_start_keeps_harmless(s.drop_first(), set);
        assert(text::trimmed_start(s, set) == text::trimmed_start(s.drop_first(), set));
    } else {
        assert(text::trimmed_start(s, set) == s);
    }
}

proof fn lemma_trimming_end_keeps_harmless(s: Seq<char>, set: CharSet)
    requires
        forall|i: int| 0 <= i < s.len() ==> is_harmless(#[trigger] s[i]),
    ensures
        forall|i: int|
            0 <= i < text::trimmed_end(s, set).len() ==> is_harmless(
                #[trigger] text::trimmed_end(s, set)[i],
            ),
    decreases s.len(),
{
    if s.len() > 0 && set.holds(s.last()) {
        lemma_trimming_end_keeps_harmless(s.drop_last(), set);
        assert(text::trimmed_end(s, set) == text::trimmed_end(s.drop_last(), set));
    } else {
        assert(text::trimmed_end(s, set) == s);
    }
}

/// The report of an uninstallation. What was recorded before goes into it only
/// if it was recorded of the same application.
pub fn save_uninstall_report(
    input: UninstallReportInput,
    created_at: u64,
    snapshot: Option<UninstallSnapshot>,
    diff: Option<UninstallSnapshotDiff>,
) -> (r: SavedUninstallReport)
    ensures
        r.version == 1,
        r.created_at == created_at,
        r.app_name == input.app_name,
        r.install_location == input.install_location,
        r.estimated_bytes == input.estimated_bytes,
        r.uninstall_freed_bytes == input.uninstall_freed_bytes,
        r.cleanup_freed_bytes == input.cleanup_freed_bytes,
        r.failed_items == input.failed_items,
        r.scheduled_for_reboot == input.scheduled_for_reboot,
        snapshot is Some && snapshot->0.app_name@ == input.app_name@ ==> r.snapshot == snapshot
            && r.diff == diff,
        !(snapshot is Some && snapshot->0.app_name@ == input.app_name@) ==> r.snapshot is None
            && r.diff is None,
{
    let same = match &snapshot {
        Some(snapshot) => text::same(snapshot.app_name.as_str(), input.app_name.as_str()),
        None => false,
    };
    let (snapshot, diff) = if same {
        (snapshot, diff)
    } else {
        (None, None)
    };
    SavedUninstallReport {
        version: 1,
        created_at,
        app_name: input.app_name,
        install_location: input.install_location,
        estimated_bytes: input.estimated_bytes,
        uninstall_freed_bytes: input.uninstall_freed_bytes,
        cleanup_freed_bytes: input.cleanup_freed_bytes,
        failed_items: input.failed_items,
        scheduled_for_reboot: input.scheduled_for_reboot,
        snapshot,
        diff,
    }
}

/// The name of the file that a report is stored in.
pub fn report_file_name(app_name: &str, created_at: u64) -> (r: String)
    ensures
        r@ == slug_of(app_name@) + "-"@ + text::decimal(created_at as nat) + ".json"@,
{
    let mut r = sanitize_report_slug(app_name);
    let time = text::decimal_text(created_at);
    r.push_str("-");
    r.push_str(time.as_str());
    r.push_str(".json");
    r
}

/// A file in the directory of reports.
#[derive(Debug)]
pub struct ReportFile {
    pub path: String,
    pub is_file: bool,
    /// When it was last changed, in nanoseconds of Unix time; 0 where that is
    /// not known.
    pub modified: i128,
}

impl Ranked for ReportFile {
    open spec fn before(self, other: Self) -> bool {
        self.modified > other.modified
    }

    proof fn lemma_ranks_transitive(a: Self, b: Self, c: Self) {
    }

    proof fn lemma_ranks_asymmetric(a: Self, b: Self) {
    }

    fn precedes(&self, other: &Self) -> (r: bool) {
        self.modified > other.modified
    }
}

/// Whether a file is a report.
pub open spec fn is_report() -> spec_fn(ReportFile) -> bool {
    |file: ReportFile|
        file.is_file && match path::last_extension(file.path@) {
            Some(extension) => text::ascii_lowercase(extension) == text::ascii_lowercase("json"@),
            None => false,
        }
}

fn is_report_file(file: &ReportFile) -> (r: bool)
    ensures
        r == is_report()(*file),
{
    match path::last_extension_of(file.path.as_str()) {
        Some(extension) => text::same_ignoring_ascii_case(extension.as_str(), "json")
            && file.is_file,
        None => false,
    }
}

/// Whether the files are those that are deleted: all reports but the newest.
pub open spec fn are_outdated(files: Seq<ReportFile>, keep: int, r: Seq<ReportFile>) -> bool {
    exists|sorted: Seq<ReportFile>|
        #[trigger] is_stable_sort(files.filter(is_report()), sorted) && r == if sorted.len()
            <= keep {
            seq![]
        } else {
            sorted.skip(keep)
        }
}

/// The reports that are deleted so that only the newest are kept, of the files
/// in their directory.
pub fn prune_reports_at(files: Vec<ReportFile>, keep: usize) -> (r: Vec<ReportFile>)
    ensures
        are_outdated(files@, keep as int, r@),
{
    let ghost all = files@;
    let mut rest = Queue::of(files);
    let mut reports: Vec<ReportFile> = Vec::new();
    let ghost mut n: int = 0;
    proof {
        reveal(Seq::filter);
    }
    assert(rest@ =~= all.skip(0));
    assert(reports@ =~= all.take(0).filter(is_report()));
    while rest.len() > 0
        invariant
            0 <= n <= all.len(),
            rest@ == all.skip(n),
            reports@ == all.take(n).filter(is_report()),
        decreases rest@.len(),
    {
        let file = rest.take_first();
        assert(file == all[n]);
        assert(rest@ =~= all.skip(n + 1));
        assert(all.take(n + 1).drop_last() =~= all.take(n));
        proof {
            reveal(Seq::filter);
        }
        if is_report_file(&file) {
            reports.push(file);
        }
        proof {
            n = n + 1;
        }
    }
    assert(all.take(n) =~= all);
    let mut sorted = stable_sort(reports);
    let ghost order = sorted@;
    assert(is_stable_sort(all.filter(is_report()), order));
    if sorted.len() <= keep {
        let none: Vec<ReportFile> = Vec::new();
        assert(none@ =~= seq![]);
        return none;
    }
    let outdated = sorted.split_off(keep);
    assert(outdated@ =~= order.skip(keep as int));
    outdated
}

/// Only reports are deleted, and none that is newer than one that is kept: what
/// is deleted is not newer than any of as many reports as are kept.
pub proof fn law_newest_reports_are_kept(files: Seq<ReportFile>, keep: int, r: Seq<ReportFile>)
    requires
        keep >= 0,
        are_outdated(files, keep, r),
    ensures
        forall|i: int| 0 <= i < r.len() ==> is_report()(#[trigger] r[i]),
        exists|kept: Seq<ReportFile>|
            #[trigger] is_stable_sort(files.filter(is_report()), kept + r) && kept.len() == (
            if files.filter(is_report()).len() <= keep {
                files.filter(is_report()).len() as int
            } else {
                keep
            }) && forall|i: int, j: int|
                0 <= i < kept.len() && 0 <= j < r.len() ==> (#[trigger] kept[i]).modified >= (
                #[trigger] r[j]).modified,
{
    let reports = files.filter(is_report());
    let sorted = choose|sorted: Seq<ReportFile>|
        #[trigger] is_stable_sort(reports, sorted) && r == if sorted.len() <= keep {
            seq![]
        } else {
            sorted.skip(keep)
        };
    let p = choose|p: Seq<int>| is_stable_rearrangement(reports, sorted, p);
    let kept = if sorted.len() <= keep {
        sorted
    } else {
        sorted.take(keep)
    };
    assert(kept + r =~= sorted);
    assert forall|i: int| 0 <= i < r.len() implies is_report()(#[trigger] r[i]) by {
        let k = keep + i;
        assert(r[i] == sorted[k]);
        assert(0 <= p[k] < reports.len() && sorted[k] == reports[p[k]]);
        files.lemma_filter_pred(is_report(), p[k]);
    }
    assert forall|i: int, j: int| 0 <= i < kept.len() && 0 <= j < r.len() implies (
    #[trigger] kept[i]).modified >= (#[trigger] r[j]).modified by {
        assert(kept[i] == sorted[i] && r[j] == sorted[keep + j]);
        assert(!sorted[keep + j].before(sorted[i]));
    }
    assert(is_stable_sort(reports, kept + r));
}

} // verus!
