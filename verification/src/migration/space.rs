//! The free space of the disk that a path lies on.

#![verifier::loop_isolation(false)]

use vstd::prelude::*;

use crate::text;

verus! {

/// A mounted disk.
#[derive(Debug)]
pub struct Mount {
    pub mount_point: String,
    /// Free bytes.
    pub available: u64,
}

/// A mount point without regard to case and trailing backslashes.
pub open spec fn mount_form(mount_point: Seq<char>) -> Seq<char> {
    text::trimmed_end(text::uppercase(mount_point), text::CharSet::One('\\'))
}

/// Whether a path in upper case lies on a mount: it is the mount point, or goes
/// on behind it with a backslash.
pub open spec fn lies_on(path: Seq<char>, mount: Seq<char>) -> bool {
    path == mount || (text::has_prefix(path, mount) && path.len() > mount.len()
        && path[mount.len() as int] == '\\')
}

/// Whether a mount is the one that a path lies on: no other mount on which it
/// lies has a longer name, and none behind it an equally long one.
pub open spec fn is_mount_of(mounts: Seq<Mount>, path: Seq<char>, i: int) -> bool {
    &&& 0 <= i < mounts.len()
    &&& lies_on(path, mount_form(mounts[i].mount_point@))
    &&& forall|j: int|
        0 <= j < mounts.len() && lies_on(path, mount_form((#[trigger] mounts[j]).mount_point@))
            ==> mount_form(mounts[j].mount_point@).len() <= mount_form(
            mounts[i].mount_point@,
        ).len() && (j > i ==> mount_form(mounts[j].mount_point@).len() < mount_form(
            mounts[i].mount_point@,
        ).len())
}

/// The free space of the disk that a path lies on; nothing where it lies on no
/// known disk.
pub fn get_available_space(path: &str, mounts: &Vec<Mount>) -> (r: u64)
    ensures
        (exists|i: int| #[trigger]
            is_mount_of(mounts@, text::uppercase(path@), i) && r == mounts@[i].available) || (r == 0
            && forall|i: int|
            0 <= i < mounts@.len() ==> !lies_on(
                text::uppercase(path@),
                mount_form((#[trigger] mounts@[i]).mount_point@),
            )),
{
    let upper = text::to_uppercase(path);
    let p = text::chars_of(upper.as_str());
    let mut best: Option<usize> = None;
    let mut best_len: usize = 0;
    let mut i: usize = 0;
    while i < mounts.len()
        invariant
            i <= mounts@.len(),
            p@ == text::uppercase(path@),
            match best {
                Some(b) => b < i && is_mount_of(mounts@.take(i as int), p@, b as int) && best_len
                    == mount_form(mounts@[b as int].mount_point@).len(),
                None => forall|j: int|
                    0 <= j < i ==> !lies_on(p@, mount_form((#[trigger] mounts@[j]).mount_point@)),
            },
        decreases mounts@.len() - i,
    {
        let mount_upper = text::to_uppercase(mounts[i].mount_point.as_str());
        let clean = text::trim_end(mount_upper.as_str(), text::CharSet::One('\\'));
        let m = text::chars_of(clean.as_str());
        let on = text::same(upper.as_str(), clean.as_str()) || (text::stands_at_index(&p, &m, 0)
            && p.len() > m.len() && p[m.len()] == '\\');
        let ghost shorter = mounts@.take(i as int);
        let ghost longer = mounts@.take(i + 1);
        assert forall|j: int| 0 <= j < i implies #[trigger] longer[j] == shorter[j] by {}
        if on && (best.is_none() || m.len() >= best_len) {
            best = Some(i);
            best_len = m.len();
            assert(is_mount_of(longer, p@, i as int));
        } else if let Some(b) = best {
            assert(is_mount_of(longer, p@, b as int));
        }
        i = i + 1;
    }
    assert(mounts@.take(i as int) =~= mounts@);
    match best {
        Some(b) => mounts[b].available,
        None => 0,
    }
}

} // verus!
