//! Which executable of a directory is an application, if one is.

#![verifier::loop_isolation(false)]

use vstd::prelude::*;

use super::scan_rules::{
    config_extensions, extension_of, has_version_pattern_in_stem, is_installer_like_exe, is_support,
    DirItem,
};
use super::scan_rules;
use crate::path;
use crate::text;

verus! {

/// An executable that may be an application.
#[derive(Debug)]
pub struct ApplicationCandidate {
    pub exe_path: String,
    /// File name without extension.
    pub exe_name: String,
}

/// What a directory holds.
#[derive(Debug)]
pub struct DirectorySurvey {
    pub candidates: Vec<ApplicationCandidate>,
    pub has_launcher: bool,
    pub has_non_installer_exe: bool,
    pub has_dll: bool,
    pub has_config: bool,
    pub has_supporting_subdirs: bool,
    pub exe_count: usize,
}

/// Whether an entry is a file with the given extension.
pub open spec fn is_file_of(item: DirItem, extension: Seq<char>) -> bool {
    !item.is_directory && item.is_file && extension_of(item) == Some(extension)
}

pub open spec fn is_installer(item: DirItem) -> bool {
    scan_rules::is_installer_name(text::lowercase(scan_rules::name_of(item.path@)))
}

/// The name of an executable, without extension.
pub open spec fn exe_name_of(item: DirItem) -> Seq<char> {
    path::last_stem(item.path@)
}

/// Whether an entry is an executable that may be an application: no installer,
/// and with a name that means something.
pub open spec fn is_candidate(item: DirItem) -> bool {
    is_file_of(item, "exe"@) && !is_installer(item) && text::byte_len(exe_name_of(item)) > 1
        && !item.random_stem
}

/// The paths and names of the candidates, in order.
pub open spec fn candidates_of(items: Seq<DirItem>) -> Seq<(Seq<char>, Seq<char>)>
    decreases items.len(),
{
    if items.len() == 0 {
        seq![]
    } else {
        let before = candidates_of(items.drop_last());
        if is_candidate(items.last()) {
            before.push((items.last().path@, exe_name_of(items.last())))
        } else {
            before
        }
    }
}

pub open spec fn candidate_views(v: Seq<ApplicationCandidate>) -> Seq<(Seq<char>, Seq<char>)> {
    Seq::new(v.len(), |i: int| (v[i].exe_path@, v[i].exe_name@))
}

/// How many executables there are.
pub open spec fn count_exes(items: Seq<DirItem>) -> nat
    decreases items.len(),
{
    if items.len() == 0 {
        0
    } else {
        count_exes(items.drop_last()) + if is_file_of(items.last(), "exe"@) {
            1nat
        } else {
            0nat
        }
    }
}

pub open spec fn some_item(items: Seq<DirItem>, p: spec_fn(DirItem) -> bool) -> bool {
    exists|i: int| 0 <= i < items.len() && p(#[trigger] items[i])
}

/// What a survey says of the entries of a directory.
pub open spec fn surveys(s: DirectorySurvey, items: Seq<DirItem>) -> bool {
    &&& candidate_views(s.candidates@) == candidates_of(items)
    &&& s.exe_count == count_exes(items)
    &&& s.has_launcher == some_item(
        items,
        |item: DirItem| is_file_of(item, "bat"@) || is_file_of(item, "cmd"@),
    )
    &&& s.has_non_installer_exe == some_item(
        items,
        |item: DirItem| is_file_of(item, "exe"@) && !is_installer(item),
    )
    &&& s.has_dll == some_item(items, |item: DirItem| is_file_of(item, "dll"@))
    &&& s.has_config == some_item(items, |item: DirItem| is_config_file(item))
    &&& s.has_supporting_subdirs == some_item(items, |item: DirItem| is_support(item))
}

pub open spec fn is_config_file(item: DirItem) -> bool {
    !item.is_directory && item.is_file && extension_of(item) is Some && text::among(
        config_extensions(),
        extension_of(item)->0,
    )
}

proof fn lemma_some_item_step(items: Seq<DirItem>, n: int, p: spec_fn(DirItem) -> bool)
    requires
        0 <= n < items.len(),
    ensures
        some_item(items.take(n + 1), p) == (some_item(items.take(n), p) || p(items[n])),
{
    let longer = items.take(n + 1);
    let shorter = items.take(n);
    if some_item(shorter, p) {
        let i = choose|i: int| 0 <= i < shorter.len() && p(#[trigger] shorter[i]);
        assert(p(longer[i]));
    }
    if p(items[n]) {
        assert(p(longer[n]));
    }
    if some_item(longer, p) {
        let i = choose|i: int| 0 <= i < longer.len() && p(#[trigger] longer[i]);
        if i < n {
            assert(p(shorter[i]));
        }
    }
}

/// The extensions that matter here are different.
proof fn lemma_extensions_differ()
    ensures
        "exe"@ != "dll"@,
        "exe"@ != "bat"@,
        "exe"@ != "cmd"@,
        "dll"@ != "bat"@,
        "dll"@ != "cmd"@,
        !text::among(config_extensions(), "exe"@),
        !text::among(config_extensions(), "dll"@),
        !text::among(config_extensions(), "bat"@),
        !text::among(config_extensions(), "cmd"@),
{
    reveal_strlit("exe");
    reveal_strlit("dll");
    reveal_strlit("bat");
    reveal_strlit("cmd");
    reveal_strlit("ini");
    reveal_strlit("cfg");
    reveal_strlit("json");
    reveal_strlit("xml");
    reveal_strlit("toml");
    reveal_strlit("yaml");
    reveal_strlit("yml");
    reveal_strlit("conf");
    assert("exe"@[0] == 'e' && "dll"@[0] == 'd' && "bat"@[0] == 'b' && "cmd"@[1] == 'm');
    assert forall|i: int| 0 <= i < config_extensions().len() implies {
        let e = (#[trigger] config_extensions()[i])@;
        e != "exe"@ && e != "dll"@ && e != "bat"@ && e != "cmd"@
    } by {
        let e = config_extensions()[i]@;
        assert(e.len() == 3 || e.len() == 4);
        assert(e.len() == 3 ==> (e[0] == 'i' || e[0] == 'c' && e[1] == 'f' || e[0] == 'x' || e[0]
            == 'y'));
    }
}

/// Looks through the entries of a directory.
pub fn survey_directory(items: &Vec<DirItem>) -> (r: DirectorySurvey)
    ensures
        surveys(r, items@),
{
    let mut s = DirectorySurvey {
        candidates: Vec::new(),
        has_launcher: false,
        has_non_installer_exe: false,
        has_dll: false,
        has_config: false,
        has_supporting_subdirs: false,
        exe_count: 0,
    };
    let mut i: usize = 0;
    assert(candidate_views(s.candidates@) =~= candidates_of(items@.take(0)));
    while i < items.len()
        invariant
            i <= items@.len(),
            surveys(s, items@.take(i as int)),
            s.exe_count <= i,
        decreases items@.len() - i,
    {
        let item = &items[i];
        assert(items@.take(i + 1).drop_last() =~= items@.take(i as int));
        assert(items@.take(i + 1).last() == *item);
        let ghost before = s;
        proof {
            lemma_extensions_differ();
            lemma_some_item_step(
                items@,
                i as int,
                |item: DirItem| is_file_of(item, "bat"@) || is_file_of(item, "cmd"@),
            );
            lemma_some_item_step(
                items@,
                i as int,
                |item: DirItem| is_file_of(item, "exe"@) && !is_installer(item),
            );
            lemma_some_item_step(items@, i as int, |item: DirItem| is_file_of(item, "dll"@));
            lemma_some_item_step(items@, i as int, |item: DirItem| is_config_file(item));
            lemma_some_item_step(items@, i as int, |item: DirItem| is_support(item));
        }
        take_item(&mut s, item);
        assert(candidate_views(s.candidates@) =~= candidates_of(items@.take(i + 1)));
        i = i + 1;
    }
    assert(items@.take(i as int) =~= items@);
    s
}

/// Adds one entry to a survey.
fn take_item(s: &mut DirectorySurvey, item: &DirItem)
    requires
        old(s).exe_count < usize::MAX,
    ensures
        candidate_views(final(s).candidates@) == if is_candidate(*item) {
            candidate_views(old(s).candidates@).push((item.path@, exe_name_of(*item)))
        } else {
            candidate_views(old(s).candidates@)
        },
        final(s).exe_count == old(s).exe_count + if is_file_of(*item, "exe"@) {
            1int
        } else {
            0
        },
        final(s).has_launcher == (old(s).has_launcher || is_file_of(*item, "bat"@) || is_file_of(
            *item,
            "cmd"@,
        )),
        final(s).has_non_installer_exe == (old(s).has_non_installer_exe || (is_file_of(
            *item,
            "exe"@,
        ) && !is_installer(*item))),
        final(s).has_dll == (old(s).has_dll || is_file_of(*item, "dll"@)),
        final(s).has_config == (old(s).has_config || is_config_file(*item)),
        final(s).has_supporting_subdirs == (old(s).has_supporting_subdirs || is_support(*item)),
{
    proof {
        lemma_extensions_differ();
    }
    if item.is_directory {
        let name = scan_rules::entry_name(item.path.as_str());
        if scan_rules::is_supporting_subdir(name.as_str()) {
            s.has_supporting_subdirs = true;
        }
        return;
    }
    if !item.is_file {
        return;
    }
    let extension = match scan_rules::lower_extension(item) {
        Some(extension) => extension,
        None => {
            return;
        },
    };
    if text::same(extension.as_str(), "exe") {
        s.exe_count = s.exe_count + 1;
        let lower = text::to_lowercase(scan_rules::entry_name(item.path.as_str()).as_str());
        if is_installer_like_exe(lower.as_str()) {
            return;
        }
        s.has_non_installer_exe = true;
        let exe_name = path::last_stem_of(item.path.as_str());
        if text::byte_length(exe_name.as_str()) <= 1 || item.random_stem {
            return;
        }
        let ghost before = s.candidates@;
        s.candidates.push(ApplicationCandidate { exe_path: item.path.clone(), exe_name });
        assert(candidate_views(s.candidates@) =~= candidate_views(before).push(
            (item.path@, exe_name_of(*item)),
        ));
    } else if text::same(extension.as_str(), "dll") {
        s.has_dll = true;
    } else if text::same(extension.as_str(), "bat") || text::same(extension.as_str(), "cmd") {
        s.has_launcher = true;
    } else {
        let names = vec!["ini", "cfg", "json", "xml", "toml", "yaml", "yml", "conf"];
        assert(names@ =~= config_extensions());
        if text::is_among(&names, extension.as_str()) {
            s.has_config = true;
        }
    }
}

pub open spec fn download_dirs() -> Seq<&'static str> {
    seq!["download", "downloads", "temp", "tmp"]
}

impl DirectorySurvey {
    pub open spec fn rules_out(self, dir_name: Seq<char>) -> bool {
        let lone = !self.has_dll && !self.has_config && !self.has_supporting_subdirs;
        ||| !self.has_non_installer_exe && !self.has_launcher && lone && self.exe_count > 0
        ||| text::among(download_dirs(), dir_name) && lone
    }

    /// Whether the directory holds installers only, or lone executables in a
    /// place for downloads. The directory's name is given in lower case.
    pub fn is_ruled_out(&self, dir_name: &str) -> (r: bool)
        ensures
            r == self.rules_out(dir_name@),
    {
        let names = vec!["download", "downloads", "temp", "tmp"];
        assert(names@ =~= download_dirs());
        let lone = !self.has_dll && !self.has_config && !self.has_supporting_subdirs;
        (!self.has_non_installer_exe && !self.has_launcher && lone && self.exe_count > 0) || (
        text::is_among(&names, dir_name) && lone)
    }
}

/// How an executable's name matches that of its directory.
#[derive(Debug, Clone, Copy, PartialEq, Eq, Structural)]
pub enum NameMatchKind {
    Exact,
    Contains,
    Unrelated,
}

pub open spec fn name_match(exe_name: Seq<char>, dir_name: Seq<char>) -> NameMatchKind {
    let e = text::lowercase(exe_name);
    if e == dir_name {
        NameMatchKind::Exact
    } else if e.len() > 0 && dir_name.len() > 0 && (text::contains_text(dir_name, e)
        || text::contains_text(e, dir_name)) {
        NameMatchKind::Contains
    } else {
        NameMatchKind::Unrelated
    }
}

/// How an executable's name matches that of its directory, which is given in
/// lower case.
pub fn match_names(exe_name: &str, dir_name: &str) -> (r: NameMatchKind)
    ensures
        r == name_match(exe_name@, dir_name@),
{
    let e = text::to_lowercase(exe_name);
    if text::same(e.as_str(), dir_name) {
        NameMatchKind::Exact
    } else if !e.as_str().is_empty() && !dir_name.is_empty() && (text::contains(
        dir_name,
        e.as_str(),
    ) || text::contains(e.as_str(), dir_name)) {
        NameMatchKind::Contains
    } else {
        NameMatchKind::Unrelated
    }
}

/// What speaks for and against a candidate.
#[derive(Debug)]
pub struct ScoreSignals {
    pub in_downloads: bool,
    pub has_dll: bool,
    pub has_config: bool,
    pub has_supporting_subdirs: bool,
    pub several_exes: bool,
    pub name_match: NameMatchKind,
    /// Whether the name holds a version.
    pub has_version: bool,
    /// How many digits the name holds.
    pub digit_count: usize,
    /// How many bytes the name has.
    pub stem_bytes: usize,
}

pub open spec fn count_digits(s: Seq<char>) -> nat
    decreases s.len(),
{
    if s.len() == 0 {
        0
    } else {
        count_digits(s.drop_last()) + if text::is_ascii_digit(s.last()) {
            1nat
        } else {
            0nat
        }
    }
}

fn digits_in(s: &str) -> (r: usize)
    ensures
        r == count_digits(s@),
{
    let v = text::chars_of(s);
    let mut n: usize = 0;
    let mut i: usize = 0;
    while i < v.len()
        invariant
            v@ == s@,
            i <= v@.len(),
            n <= i,
            n == count_digits(s@.take(i as int)),
        decreases v@.len() - i,
    {
        assert(s@.take(i + 1).drop_last() =~= s@.take(i as int));
        if '0' <= v[i] && v[i] <= '9' {
            n = n + 1;
        }
        i = i + 1;
    }
    assert(s@.take(i as int) =~= s@);
    n
}

/// What speaks for and against a candidate. The directory's name and the
/// directory for downloads are given in lower case.
pub fn score_signals(
    survey: &DirectorySurvey,
    candidate: &ApplicationCandidate,
    dir_name: &str,
    downloads: &Option<String>,
) -> (r: ScoreSignals)
    ensures
        r.in_downloads == (downloads is Some && text::has_prefix(
            text::lowercase(candidate.exe_path@),
            downloads->0@,
        )),
        r.has_dll == survey.has_dll,
        r.has_config == survey.has_config,
        r.has_supporting_subdirs == survey.has_supporting_subdirs,
        r.several_exes == (survey.exe_count >= 2),
        r.name_match == name_match(candidate.exe_name@, dir_name@),
        r.has_version == scan_rules::has_version(candidate.exe_name@),
        r.digit_count == count_digits(candidate.exe_name@),
        r.stem_bytes == text::byte_len(candidate.exe_name@),
{
    let lower = text::to_lowercase(candidate.exe_path.as_str());
    let in_downloads = match downloads {
        Some(dir) => text::starts_with(lower.as_str(), dir.as_str()),
        None => false,
    };
    ScoreSignals {
        in_downloads,
        has_dll: survey.has_dll,
        has_config: survey.has_config,
        has_supporting_subdirs: survey.has_supporting_subdirs,
        several_exes: survey.exe_count >= 2,
        name_match: match_names(candidate.exe_name.as_str(), dir_name),
        has_version: has_version_pattern_in_stem(candidate.exe_name.as_str()),
        digit_count: digits_in(candidate.exe_name.as_str()),
        stem_bytes: text::byte_length(candidate.exe_name.as_str()),
    }
}

/// Whether a candidate is the best: no earlier one ranks as high, none ranks
/// higher, and it reaches the threshold.
pub open spec fn is_best(ranks: Seq<u32>, threshold: u32, i: int) -> bool {
    &&& 0 <= i < ranks.len()
    &&& ranks[i] >= threshold
    &&& forall|j: int| 0 <= j < i ==> #[trigger] ranks[j] < ranks[i]
    &&& forall|j: int| i < j < ranks.len() ==> #[trigger] ranks[j] <= ranks[i]
}

/// The candidate with the highest rank, the earliest of several, if it reaches
/// the threshold. Ranks order the candidates as their scores do; a score that
/// is not above zero ranks zero.
pub fn best_candidate(ranks: &Vec<u32>, threshold: u32) -> (r: Option<usize>)
    requires
        threshold > 0,
    ensures
        match r {
            Some(i) => is_best(ranks@, threshold, i as int),
            None => forall|j: int| 0 <= j < ranks@.len() ==> #[trigger] ranks@[j] < threshold,
        },
{
    let mut best: Option<usize> = None;
    let mut best_rank: u32 = 0;
    let mut i: usize = 0;
    while i < ranks.len()
        invariant
            i <= ranks@.len(),
            forall|j: int| 0 <= j < i ==> #[trigger] ranks@[j] <= best_rank,
            match best {
                Some(b) => b < i && best_rank == ranks@[b as int] && best_rank > 0 && forall|j: int|
                    0 <= j < b ==> #[trigger] ranks@[j] < best_rank,
                None => best_rank == 0,
            },
        decreases ranks@.len() - i,
    {
        if ranks[i] > best_rank {
            best_rank = ranks[i];
            best = Some(i);
        }
        i = i + 1;
    }
    if best_rank >= threshold {
        best
    } else {
        None
    }
}

/// The executable by which a directory is an application's: that of the best
/// candidate, unless the directory is ruled out. The directory's name is given
/// in lower case; the ranks are those of the survey's candidates.
pub fn directory_looks_like_app(
    survey: &DirectorySurvey,
    dir_name: &str,
    ranks: &Vec<u32>,
    threshold: u32,
) -> (r: Option<String>)
    requires
        ranks@.len() == survey.candidates@.len(),
        threshold > 0,
    ensures
        match r {
            Some(path) => !survey.rules_out(dir_name@) && exists|i: int| #[trigger]
                is_best(ranks@, threshold, i) && path@ == survey.candidates@[i].exe_path@,
            None => survey.rules_out(dir_name@) || forall|j: int|
                0 <= j < ranks@.len() ==> #[trigger] ranks@[j] < threshold,
        },
{
    if survey.is_ruled_out(dir_name) {
        return None;
    }
    match best_candidate(ranks, threshold) {
        Some(i) => Some(survey.candidates[i].exe_path.clone()),
        None => None,
    }
}

/// There is at most one best candidate.
pub proof fn law_best_candidate_is_unique(ranks: Seq<u32>, threshold: u32, i: int, j: int)
    requires
        is_best(ranks, threshold, i),
        is_best(ranks, threshold, j),
    ensures
        i == j,
{
    if i < j {
        assert(ranks[i] < ranks[j]);
    } else if j < i {
        assert(ranks[j] < ranks[i]);
    }
}

} // verus!
