//! Which disks are left alone right after the machine was started.

#![verifier::loop_isolation(false)]

use vstd::prelude::*;

use crate::list;
use crate::list::holds_text;
use crate::path_order::{is_in_order, is_listed, sorted_paths};
use crate::text;
use crate::text::CharSet;

verus! {

/// For how many seconds after its start a machine counts as just started.
pub const COLD_START_UPTIME_SECS: u64 = 60;

/// Which mount points are not searched yet.
#[derive(Debug)]
pub struct DiskScanPolicy {
    pub deferred_hdd_mounts: Vec<String>,
}

impl Default for DiskScanPolicy {
    fn default() -> (r: Self)
        ensures
            r.deferred_hdd_mounts@.len() == 0,
    {
        DiskScanPolicy { deferred_hdd_mounts: Vec::new() }
    }
}

/// A path as it is compared: with backslashes, in lower case, without trailing
/// backslashes.
pub open spec fn compared_path(path: Seq<char>) -> Seq<char> {
    text::trimmed_end(text::lowercase(text::replaced(path, '/', '\\')), CharSet::One('\\'))
}

fn normalize_windows_path(path: &str) -> (r: String)
    ensures
        r@ == compared_path(path@),
{
    let back = text::replace_char(path, '/', '\\');
    let lower = text::to_lowercase(back.as_str());
    text::trim_end(lower.as_str(), CharSet::One('\\'))
}

/// Whether a path is a place or lies in it. Both are given as they are
/// compared.
pub open spec fn is_within(path: Seq<char>, place: Seq<char>) -> bool {
    path == place || text::has_prefix(path, place + "\\"@)
}

/// Whether a mount point is that of the system, or lies on it.
pub fn is_system_mount(mount: &str) -> (r: bool)
    ensures
        r == (compared_path(mount@) == "c:"@ || text::has_prefix(
            compared_path(mount@),
            "c:\\"@,
        )),
{
    let plain = normalize_windows_path(mount);
    text::same(plain.as_str(), "c:") || text::starts_with(plain.as_str(), "c:\\")
}

/// A disk, as the system describes it.
#[derive(Debug)]
pub struct DiskFacts {
    pub mount: String,
    /// Whether it is a disk that turns.
    pub is_hdd: bool,
}

/// Whether a disk is left alone right after the start: it turns and is not
/// mounted as the system's, nor on it.
pub open spec fn is_left_alone(disk: DiskFacts) -> bool {
    disk.is_hdd && compared_path(disk.mount@) != "c:"@ && !text::has_prefix(
        compared_path(disk.mount@),
        "c:\\"@,
    )
}

/// Whether a text is the mount point of a disk that is left alone.
pub open spec fn is_deferred_mount(disks: Seq<DiskFacts>, mount: Seq<char>) -> bool {
    exists|i: int|
        0 <= i < disks.len() && is_left_alone(#[trigger] disks[i]) && disks[i].mount@ == mount
}

impl DiskScanPolicy {
    /// The policy for a scan. Only the scan right after the start of the
    /// machine leaves out disks: those that turn, but for the system's. Their
    /// mount points are listed in the order of their components, each once.
    pub fn for_scan(is_startup_scan: bool, uptime: u64, disks: &Vec<DiskFacts>) -> (r: Self)
        ensures
            !(is_startup_scan && uptime < COLD_START_UPTIME_SECS) ==> r.deferred_hdd_mounts@.len()
                == 0,
            forall|t: Seq<char>| #[trigger]
                holds_text(r.deferred_hdd_mounts@, t) ==> is_deferred_mount(disks@, t),
            is_startup_scan && uptime < COLD_START_UPTIME_SECS ==> forall|t: Seq<char>| #[trigger]
                is_deferred_mount(disks@, t) ==> is_listed(r.deferred_hdd_mounts@, t),
            is_in_order(r.deferred_hdd_mounts@),
    {
        if !is_startup_scan || uptime >= COLD_START_UPTIME_SECS {
            return DiskScanPolicy::default();
        }
        let mut mounts: Vec<String> = Vec::new();
        let mut i: usize = 0;
        while i < disks.len()
            invariant
                i <= disks@.len(),
                forall|t: Seq<char>| #[trigger]
                    holds_text(mounts@, t) <==> is_deferred_mount(disks@.take(i as int), t),
            decreases disks@.len() - i,
        {
            let disk = &disks[i];
            let ghost before = mounts@;
            let alone = disk.is_hdd && !is_system_mount(disk.mount.as_str());
            if alone {
                let mount = disk.mount.clone();
                mounts.push(mount);
                proof {
                    list::lemma_holds_text_push(before, mount);
                }
            }
            proof {
                lemma_deferred_mount_push(disks@, i as int);
            }
            i = i + 1;
        }
        assert(disks@.take(i as int) =~= disks@);
        proof {
            assert forall|t: Seq<char>| #[trigger] is_deferred_mount(disks@, t) implies holds_text(
                mounts@,
                t,
            ) by {}
        }
        DiskScanPolicy { deferred_hdd_mounts: sorted_paths(mounts) }
    }

    /// Whether a path is not searched yet.
    pub open spec fn defers(self, path: Seq<char>) -> bool {
        exists|i: int|
            0 <= i < self.deferred_hdd_mounts@.len() && is_within(
                compared_path(path),
                compared_path((#[trigger] self.deferred_hdd_mounts@[i])@),
            )
    }

    /// Whether a path is not searched yet: it is one of the mount points or
    /// lies in it.
    pub fn should_defer_path(&self, path: &str) -> (r: bool)
        ensures
            r == self.defers(path@),
            text::all_ascii(path@) ==> compared_path(path@) == text::trimmed_end(
                text::ascii_lowercase(text::replaced(path@, '/', '\\')),
                CharSet::One('\\'),
            ),
    {
        let plain = normalize_windows_path(path);
        let mut i: usize = 0;
        while i < self.deferred_hdd_mounts.len()
            invariant
                i <= self.deferred_hdd_mounts@.len(),
                forall|j: int|
                    0 <= j < i ==> !is_within(
                        plain@,
                        compared_path((#[trigger] self.deferred_hdd_mounts@[j])@),
                    ),
            decreases self.deferred_hdd_mounts@.len() - i,
        {
            let mount = normalize_windows_path(self.deferred_hdd_mounts[i].as_str());
            if text::same(plain.as_str(), mount.as_str()) {
                return true;
            }
            let mut inside = mount;
            inside.push_str("\\");
            if text::starts_with(plain.as_str(), inside.as_str()) {
                return true;
            }
            i = i + 1;
        }
        false
    }

    /// The mount points as they are named to the user.
    pub fn deferred_mount_labels(&self) -> (r: Vec<String>)
        ensures
            text::texts(r@) == text::texts(self.deferred_hdd_mounts@).map_values(
                |mount: Seq<char>| text::trimmed_end(mount, CharSet::Two('\\', '/')),
            ),
    {
        let ghost labels = text::texts(self.deferred_hdd_mounts@).map_values(
            |mount: Seq<char>| text::trimmed_end(mount, CharSet::Two('\\', '/')),
        );
        let mut r: Vec<String> = Vec::new();
        let mut i: usize = 0;
        assert(text::texts(r@) =~= labels.take(0));
        while i < self.deferred_hdd_mounts.len()
            invariant
                i <= self.deferred_hdd_mounts@.len(),
                text::texts(r@) == labels.take(i as int),
            decreases self.deferred_hdd_mounts@.len() - i,
        {
            let label = text::trim_end(
                self.deferred_hdd_mounts[i].as_str(),
                CharSet::Two('\\', '/'),
            );
            proof {
                text::lemma_texts_push(r@, label);
            }
            assert(labels.take(i + 1) =~= labels.take(i as int).push(label@));
            r.push(label);
            i = i + 1;
        }
        assert(labels.take(i as int) =~= labels);
        r
    }

    /// Whether some mount point is not searched yet.
    pub fn has_deferred_mounts(&self) -> (r: bool)
        ensures
            r == (self.deferred_hdd_mounts@.len() > 0),
    {
        self.deferred_hdd_mounts.len() > 0
    }
}

/// A path that merely begins like a mount point, without a backslash behind it,
/// does not lie in it.
pub proof fn law_mount_points_end_at_components(place: Seq<char>, more: Seq<char>)
    requires
        more.len() > 0,
        more[0] != '\\',
    ensures
        !is_within(place + more, place),
{
    let path = place + more;
    reveal_strlit("\\");
    if text::has_prefix(path, place + "\\"@) {
        let inside = place + "\\"@;
        assert(path.subrange(0, inside.len() as int)[place.len() as int] == inside[
        place.len() as int]);
        assert(path[place.len() as int] == more[0]);
    }
    assert(path.len() > place.len());
}

proof fn lemma_deferred_mount_push(disks: Seq<DiskFacts>, n: int)
    requires
        0 <= n < disks.len(),
    ensures
        forall|t: Seq<char>| #[trigger]
            is_deferred_mount(disks.take(n + 1), t) <==> (is_deferred_mount(disks.take(n), t) || (
            is_left_alone(disks[n]) && disks[n].mount@ == t)),
{
    let shorter = disks.take(n);
    let longer = disks.take(n + 1);
    assert(longer[n] == disks[n]);
    assert forall|t: Seq<char>| #[trigger] is_deferred_mount(longer, t) <==> (is_deferred_mount(
        shorter,
        t,
    ) || (is_left_alone(disks[n]) && disks[n].mount@ == t)) by {
        if is_deferred_mount(longer, t) {
            let i = choose|i: int|
                0 <= i < longer.len() && is_left_alone(#[trigger] longer[i]) && longer[i].mount@
                    == t;
            if i < n {
                assert(shorter[i] == longer[i]);
            }
        }
        if is_deferred_mount(shorter, t) {
            let i = choose|i: int|
                0 <= i < shorter.len() && is_left_alone(#[trigger] shorter[i]) && shorter[i].mount@
                    == t;
            assert(longer[i] == shorter[i]);
        }
    }
}

/// Right after the start the system's own disk is searched like always, and so
/// is a disk that does not turn, unless one that turns has its mount point.
pub proof fn law_system_disk_is_never_deferred(disks: Seq<DiskFacts>, mount: Seq<char>)
    requires
        is_deferred_mount(disks, mount),
    ensures
        compared_path(mount) != "c:"@,
        exists|i: int|
            0 <= i < disks.len() && (#[trigger] disks[i]).is_hdd && disks[i].mount@ == mount,
{
}

/// With no mount points nothing is left for later.
pub proof fn law_nothing_is_deferred_without_mounts(policy: DiskScanPolicy, path: Seq<char>)
    requires
        policy.deferred_hdd_mounts@.len() == 0,
    ensures
        !policy.defers(path),
{
}

/// Slashes of the other kind do not decide, whatever characters a path holds.
pub proof fn law_slashes_do_not_decide(policy: DiskScanPolicy, path: Seq<char>)
    ensures
        policy.defers(text::replaced(path, '/', '\\')) == policy.defers(path),
{
    let back = text::replaced(path, '/', '\\');
    assert(text::replaced(back, '/', '\\') =~= back);
}

/// Paths of ASCII characters that differ in letter case, in the kind of their
/// slashes and in backslashes at the end alone are deferred alike.
pub proof fn law_case_and_trailing_backslashes_do_not_decide(
    policy: DiskScanPolicy,
    one: Seq<char>,
    other: Seq<char>,
    more: nat,
)
    requires
        text::all_alike(one, other),
    ensures
        policy.defers(one) == policy.defers(other),
        policy.defers(one + backslashes(more)) == policy.defers(one),
{
    text::lemma_alike_in_lower_case(one, other);
    lemma_compared_with_more(one, backslashes(more));
    let lower = text::lowercase(text::replaced(one, '/', '\\'));
    let end = text::lowercase(text::replaced(backslashes(more), '/', '\\'));
    assert(end =~= backslashes(more));
    lemma_trimmed_with_backslashes(lower, more);
}

/// So many backslashes.
pub open spec fn backslashes(n: nat) -> Seq<char> {
    Seq::new(n, |i: int| '\\')
}

proof fn lemma_trimmed_with_backslashes(s: Seq<char>, n: nat)
    ensures
        text::trimmed_end(s + backslashes(n), CharSet::One('\\')) == text::trimmed_end(
            s,
            CharSet::One('\\'),
        ),
    decreases n,
{
    let longer = s + backslashes(n);
    if n == 0 {
        assert(longer =~= s);
    } else {
        assert(longer.last() == '\\');
        assert(longer.drop_last() =~= s + backslashes((n - 1) as nat));
        lemma_trimmed_with_backslashes(s, (n - 1) as nat);
    }
}

/// How a path of ASCII characters is compared when more stands behind it.
proof fn lemma_compared_with_more(path: Seq<char>, more: Seq<char>)
    requires
        text::all_ascii(path),
        text::all_ascii(more),
    ensures
        compared_path(path + more) == text::trimmed_end(
            text::lowercase(text::replaced(path, '/', '\\')) + text::lowercase(
                text::replaced(more, '/', '\\'),
            ),
            CharSet::One('\\'),
        ),
{
    let x = text::replaced(path, '/', '\\');
    let y = text::replaced(more, '/', '\\');
    let z = text::replaced(path + more, '/', '\\');
    assert(z =~= x + y);
    assert forall|i: int| 0 <= i < x.len() implies text::is_ascii(#[trigger] x[i]) by {
        assert(text::is_ascii(path[i]));
    }
    assert forall|i: int| 0 <= i < y.len() implies text::is_ascii(#[trigger] y[i]) by {
        assert(text::is_ascii(more[i]));
    }
    assert forall|i: int| 0 <= i < z.len() implies text::is_ascii(#[trigger] z[i]) by {
        if i < x.len() {
            assert(text::is_ascii(x[i]));
        } else {
            assert(text::is_ascii(y[i - x.len()]));
        }
    }
    assert(text::lowercase(z) =~= text::lowercase(x) + text::lowercase(y));
}

/// What stands below a path of ASCII characters that is not searched yet is not
/// searched yet either.
pub proof fn law_deferred_path_defers_what_stands_below(
    policy: DiskScanPolicy,
    path: Seq<char>,
    more: Seq<char>,
)
    requires
        text::all_ascii(path),
        text::all_ascii(more),
        policy.defers(path),
    ensures
        policy.defers(path + seq!['\\'] + more),
{
    let set = CharSet::One('\\');
    let behind = seq!['\\'] + more;
    assert(text::all_ascii(behind)) by {
        assert forall|i: int| 0 <= i < behind.len() implies text::is_ascii(
            #[trigger] behind[i],
        ) by {
            if i > 0 {
                assert(text::is_ascii(more[i - 1]));
            }
        }
    }
    assert(path + seq!['\\'] + more =~= path + behind);
    lemma_compared_with_more(path, behind);
    let first = text::lowercase(text::replaced(path, '/', '\\'));
    let second = text::lowercase(text::replaced(behind, '/', '\\'));
    let outer = compared_path(path);
    let inner = compared_path(path + behind);
    lemma_trimmed_end_by_characters(first);
    lemma_trimmed_end_by_characters(first + second);
    assert(text::all_ascii(text::replaced(behind, '/', '\\'))) by {
        assert forall|i: int| 0 <= i < behind.len() implies text::is_ascii(
            #[trigger] text::replaced(behind, '/', '\\')[i],
        ) by {
            assert(text::is_ascii(behind[i]));
        }
    }
    assert(second[0] == '\\');
    let n = outer.len() as int;
    assert(inner.len() >= n) by {
        if inner.len() < n {
            assert((first + second)[n - 1] == '\\');
            assert(first[n - 1] == outer[n - 1]);
        }
    }
    assert forall|i: int| 0 <= i < n implies inner[i] == outer[i] by {
        assert(inner[i] == (first + second)[i]);
        assert(outer[i] == first[i]);
    }
    reveal_strlit("\\");
    let below = outer + "\\"@;
    if inner.len() > n {
        assert((first + second)[n] == '\\');
        assert(inner.subrange(0, n + 1) =~= below);
    } else {
        assert(inner =~= outer);
    }
    law_deferred_path_defers_what_lies_in_it(policy, path, path + behind);
}

/// What is trimmed at the end are backslashes, and what is left does not end
/// with one.
proof fn lemma_trimmed_end_by_characters(s: Seq<char>)
    ensures
        ({
            let t = text::trimmed_end(s, CharSet::One('\\'));
            &&& t.len() <= s.len()
            &&& t == s.take(t.len() as int)
            &&& forall|i: int| t.len() <= i < s.len() ==> #[trigger] s[i] == '\\'
            &&& t.len() > 0 ==> t.last() != '\\'
        }),
    decreases s.len(),
{
    if s.len() > 0 && s.last() == '\\' {
        lemma_trimmed_end_by_characters(s.drop_last());
        let t = text::trimmed_end(s.drop_last(), CharSet::One('\\'));
        assert(s.drop_last().take(t.len() as int) =~= s.take(t.len() as int));
        assert forall|i: int| t.len() <= i < s.len() implies #[trigger] s[i] == '\\' by {
            if i < s.len() - 1 {
                assert(s.drop_last()[i] == s[i]);
            }
        }
    } else {
        assert(s.take(s.len() as int) =~= s);
    }
}

/// What lies in a path that is not searched yet is not searched yet either.
pub proof fn law_deferred_path_defers_what_lies_in_it(
    policy: DiskScanPolicy,
    path: Seq<char>,
    deeper: Seq<char>,
)
    requires
        policy.defers(path),
        is_within(compared_path(deeper), compared_path(path)),
    ensures
        policy.defers(deeper),
{
    let i = choose|i: int|
        0 <= i < policy.deferred_hdd_mounts@.len() && is_within(
            compared_path(path),
            compared_path((#[trigger] policy.deferred_hdd_mounts@[i])@),
        );
    let mount = compared_path(policy.deferred_hdd_mounts@[i]@);
    let outer = compared_path(path);
    let inner = compared_path(deeper);
    let inside = mount + "\\"@;
    if inner != outer {
        let below = outer + "\\"@;
        assert(text::has_prefix(inner, below));
        assert forall|k: int| 0 <= k < below.len() implies inner[k] == below[k] by {
            assert(inner.subrange(0, below.len() as int)[k] == below[k]);
        }
        if outer == mount {
            assert(text::has_prefix(inner, inside));
        } else {
            assert forall|k: int| 0 <= k < inside.len() implies outer[k] == inside[k] by {
                assert(outer.subrange(0, inside.len() as int)[k] == inside[k]);
            }
            assert(inner.subrange(0, inside.len() as int) =~= inside);
        }
    }
    assert(is_within(inner, mount));
}

} // verus!
