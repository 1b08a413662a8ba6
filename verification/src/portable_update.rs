//! Whether a newer version than the running one has been published.

#![verifier::loop_isolation(false)]

use vstd::prelude::*;

use crate::text;
use crate::text::CharSet;

verus! {

/// Where the latest release is described.
pub const LATEST_RELEASE_API_URL: &'static str =
    "https://api.github.com/repos/Chunyu33/viap/releases/latest";

/// The text under a name in a JSON object, as `serde_json` reads it; absent
/// where the input is no JSON, no object, or has no text under the name.
pub uninterp spec fn json_text(json: Seq<char>, name: Seq<char>) -> Option<Seq<char>>;

/// Calls `serde_json::from_str` for a `Value`, then its `get` and `as_str`. The
/// text that is found is named.
#[verifier::external_body]
fn read_json_text(json: &str, name: &str) -> (r: Option<String>)
    ensures
        text::view_of(r) == json_text(json@, name@),
{
    let value: serde_json::Value = serde_json::from_str(json).ok()?;
    value.get(name)?.as_str().map(|s| s.to_owned())
}

/// What was found out about the latest version.
#[derive(Debug)]
pub struct PortableUpdateCheck {
    pub has_update: bool,
    /// Without the letter that versions begin with.
    pub latest_version: String,
    pub current_version: String,
}

/// The numbers that parts of a version denote, if all of them do.
pub open spec fn numbers_in(parts: Seq<Seq<char>>) -> Option<Seq<u64>>
    decreases parts.len(),
{
    if parts.len() == 0 {
        Some(seq![])
    } else {
        match (
            numbers_in(parts.drop_last()),
            text::parsed_u64(text::trimmed(parts.last(), CharSet::Whitespace)),
        ) {
            (Some(before), Some(number)) => Some(before.push(number)),
            _ => None,
        }
    }
}

/// A version without surrounding blanks and the letters it begins with.
pub open spec fn bare_version(version: Seq<char>) -> Seq<char> {
    text::trimmed_start(text::trimmed(version, CharSet::Whitespace), CharSet::Two('v', 'V'))
}

/// The numbers of a version, up to a suffix that a hyphen or a plus sign
/// begins; absent where a part is no number.
pub open spec fn segments_of(version: Seq<char>) -> Option<Seq<u64>> {
    let bare = bare_version(version);
    if bare.len() == 0 {
        None
    } else {
        numbers_in(text::pieces(text::pieces(bare, CharSet::Two('-', '+'))[0], CharSet::One('.')))
    }
}

pub open spec fn segments_view(r: Option<Vec<u64>>) -> Option<Seq<u64>> {
    match r {
        Some(v) => Some(v@),
        None => None,
    }
}

/// Numbers are missing where they are missing in a first part of the parts.
proof fn lemma_numbers_missing(parts: Seq<Seq<char>>, n: int)
    requires
        0 <= n <= parts.len(),
        numbers_in(parts.take(n)) is None,
    ensures
        numbers_in(parts) is None,
    decreases parts.len() - n,
{
    if n < parts.len() {
        assert(parts.take(n + 1).drop_last() =~= parts.take(n));
        lemma_numbers_missing(parts, n + 1);
    } else {
        assert(parts.take(n) =~= parts);
    }
}

/// Reads the numbers of a version.
pub fn parse_version_segments(version: &str) -> (r: Option<Vec<u64>>)
    ensures
        segments_view(r) == segments_of(version@),
{
    let blank = text::trim(version, CharSet::Whitespace);
    let bare = text::trim_start(blank.as_str(), CharSet::Two('v', 'V'));
    if bare.as_str().is_empty() {
        return None;
    }
    let parts = text::split(bare.as_str(), CharSet::Two('-', '+'));
    assert(text::texts(parts@)[0] == parts@[0]@);
    let numbers = text::split(parts[0].as_str(), CharSet::One('.'));
    let ghost all = text::texts(numbers@);
    let mut r: Vec<u64> = Vec::new();
    let mut i: usize = 0;
    assert(all.take(0) =~= seq![]);
    assert(r@ =~= seq![]);
    while i < numbers.len()
        invariant
            i <= numbers@.len(),
            numbers_in(all.take(i as int)) == Some(r@),
        decreases numbers@.len() - i,
    {
        assert(all[i as int] == numbers@[i as int]@);
        assert(all.take(i + 1).drop_last() =~= all.take(i as int));
        let part = text::trim(numbers[i].as_str(), CharSet::Whitespace);
        match text::parse_u64(part.as_str()) {
            Some(number) => {
                r.push(number);
            },
            None => {
                proof {
                    lemma_numbers_missing(all, i + 1);
                }
                return None;
            },
        }
        i = i + 1;
    }
    assert(all.take(i as int) =~= all);
    Some(r)
}

/// Whether numbers are later than others: the first that differs decides, and
/// where one is a beginning of the other, the longer is later.
pub open spec fn is_later(a: Seq<u64>, b: Seq<u64>) -> bool
    decreases a.len(),
{
    if a.len() == 0 {
        false
    } else if b.len() == 0 {
        true
    } else if a[0] != b[0] {
        a[0] > b[0]
    } else {
        is_later(a.drop_first(), b.drop_first())
    }
}

fn are_later(a: &Vec<u64>, b: &Vec<u64>) -> (r: bool)
    ensures
        r == is_later(a@, b@),
{
    let mut i: usize = 0;
    assert(a@.skip(0) =~= a@);
    assert(b@.skip(0) =~= b@);
    while i < a.len() && i < b.len() && a[i] == b[i]
        invariant
            i <= a@.len(),
            i <= b@.len(),
            is_later(a@, b@) == is_later(a@.skip(i as int), b@.skip(i as int)),
        decreases a@.len() - i,
    {
        assert(a@.skip(i as int).drop_first() =~= a@.skip(i + 1));
        assert(b@.skip(i as int).drop_first() =~= b@.skip(i + 1));
        i = i + 1;
    }
    if i >= a.len() {
        false
    } else if i >= b.len() {
        true
    } else {
        a[i] > b[i]
    }
}

/// Whether a version is newer than another; never where one of them cannot be
/// read.
pub open spec fn is_newer(latest: Seq<char>, current: Seq<char>) -> bool {
    match (segments_of(latest), segments_of(current)) {
        (Some(latest), Some(current)) => is_later(latest, current),
        _ => false,
    }
}

/// Whether a version is newer than another.
pub fn is_newer_version(latest: &str, current: &str) -> (r: bool)
    ensures
        r == is_newer(latest@, current@),
{
    match (parse_version_segments(latest), parse_version_segments(current)) {
        (Some(latest), Some(current)) => are_later(&latest, &current),
        _ => false,
    }
}

/// What is found out from the latest release's tag.
pub fn compare_with_tag(tag: &str, current_version: String) -> (r: PortableUpdateCheck)
    ensures
        r.latest_version@ == text::trimmed_start(tag@, CharSet::Two('v', 'V')),
        r.current_version == current_version,
        r.has_update == is_newer(r.latest_version@, current_version@),
{
    let latest_version = text::trim_start(tag, CharSet::Two('v', 'V'));
    let has_update = is_newer_version(latest_version.as_str(), current_version.as_str());
    PortableUpdateCheck { has_update, latest_version, current_version }
}

/// What is found out from the description of the latest release; nothing where
/// it names no tag. `success` says whether the server answered with success.
pub fn check_portable_update(success: bool, body: &str, current_version: String) -> (r: Option<
    PortableUpdateCheck,
>)
    ensures
        match r {
            Some(check) => success && json_text(body@, "tag_name"@) is Some
                && check.latest_version@ == text::trimmed_start(
                json_text(body@, "tag_name"@)->0,
                CharSet::Two('v', 'V'),
            ) && check.current_version == current_version && check.has_update == is_newer(
                check.latest_version@,
                current_version@,
            ),
            None => !success || json_text(body@, "tag_name"@) is None,
        },
{
    if !success {
        return None;
    }
    match read_json_text(body, "tag_name") {
        Some(tag) => Some(compare_with_tag(tag.as_str(), current_version)),
        None => None,
    }
}

proof fn lemma_later_is_asymmetric(a: Seq<u64>, b: Seq<u64>)
    ensures
        is_later(a, b) ==> !is_later(b, a),
    decreases a.len(),
{
    if a.len() > 0 && b.len() > 0 && a[0] == b[0] {
        lemma_later_is_asymmetric(a.drop_first(), b.drop_first());
    }
}

proof fn lemma_later_is_transitive(a: Seq<u64>, b: Seq<u64>, c: Seq<u64>)
    ensures
        is_later(a, b) && is_later(b, c) ==> is_later(a, c),
    decreases a.len(),
{
    if a.len() > 0 && b.len() > 0 && c.len() > 0 {
        lemma_later_is_transitive(a.drop_first(), b.drop_first(), c.drop_first());
    }
}

/// No version is newer than itself, so whoever has the latest one is never told
/// of another.
pub proof fn law_no_version_is_newer_than_itself(version: Seq<char>)
    ensures
        !is_newer(version, version),
{
    if segments_of(version) is Some {
        lemma_later_is_asymmetric(segments_of(version)->0, segments_of(version)->0);
    }
}

/// Of two versions at most one is newer than the other.
pub proof fn law_newer_is_asymmetric(a: Seq<char>, b: Seq<char>)
    ensures
        is_newer(a, b) ==> !is_newer(b, a),
{
    if segments_of(a) is Some && segments_of(b) is Some {
        lemma_later_is_asymmetric(segments_of(a)->0, segments_of(b)->0);
    }
}

/// What is newer than a newer version is newer.
pub proof fn law_newer_is_transitive(a: Seq<char>, b: Seq<char>, c: Seq<char>)
    ensures
        is_newer(a, b) && is_newer(b, c) ==> is_newer(a, c),
{
    if segments_of(a) is Some && segments_of(b) is Some && segments_of(c) is Some {
        lemma_later_is_transitive(segments_of(a)->0, segments_of(b)->0, segments_of(c)->0);
    }
}

/// A version that cannot be read is never newer, and nothing is newer than it.
pub proof fn law_unreadable_versions_bring_no_update(version: Seq<char>, other: Seq<char>)
    requires
        segments_of(version) is None,
    ensures
        !is_newer(version, other),
        !is_newer(other, version),
{
}

} // verus!
