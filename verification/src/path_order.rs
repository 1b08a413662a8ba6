//! Lists of paths, in the order of their components.

#![verifier::loop_isolation(false)]

use vstd::prelude::*;

use crate::list;
use crate::list::{holds_text, Keyed, Queue};
use crate::path;
use crate::path::PrefixKind;
use crate::text;

verus! {

/// Where a prefix stands among prefixes.
pub open spec fn prefix_rank(kind: PrefixKind) -> char {
    match kind {
        PrefixKind::Verbatim => '0',
        PrefixKind::VerbatimShare => '1',
        PrefixKind::VerbatimDrive => '2',
        PrefixKind::Device => '3',
        PrefixKind::Share => '4',
        PrefixKind::Drive | PrefixKind::Nothing => '5',
    }
}

/// Where a component that is no prefix stands among components: the root comes
/// first, then `.`, then `..`, then names.
pub open spec fn part_rank(part: Seq<char>) -> char {
    if part == seq!['\\'] {
        '6'
    } else if part == seq!['.'] {
        '7'
    } else if part == seq!['.', '.'] {
        '8'
    } else {
        '9'
    }
}

/// A prefix as it is ordered: of a share, the server decides before its folder.
pub open spec fn compared_prefix(kind: PrefixKind, prefix: Seq<char>) -> Seq<char> {
    match kind {
        PrefixKind::Share => text::replaced(prefix, '/', '\0'),
        PrefixKind::VerbatimShare => text::replaced(prefix, '\\', '\0'),
        _ => prefix,
    }
}

/// A component behind its rank.
pub open spec fn ranked_part(s: Seq<char>, i: int) -> Seq<char> {
    let part = path::components(s)[i];
    let kind = path::prefix_kind(s);
    if i == 0 && !(kind is Nothing) {
        seq![prefix_rank(kind)] + compared_prefix(kind, part)
    } else {
        seq![part_rank(part)] + part
    }
}

/// The text by which a path is ordered: its components, each behind its rank,
/// with the lowest character between them.
pub open spec fn order_key(s: Seq<char>) -> Seq<char> {
    text::joined(
        Seq::new(path::components(s).len(), |i: int| ranked_part(s, i)),
        seq!['\0'],
    )
}

pub open spec fn by_components() -> spec_fn(String) -> Seq<char> {
    |s: String| order_key(s@)
}

fn rank_of_prefix(kind: PrefixKind) -> (r: char)
    ensures
        r == prefix_rank(kind),
{
    match kind {
        PrefixKind::Verbatim => '0',
        PrefixKind::VerbatimShare => '1',
        PrefixKind::VerbatimDrive => '2',
        PrefixKind::Device => '3',
        PrefixKind::Share => '4',
        PrefixKind::Drive | PrefixKind::Nothing => '5',
    }
}

fn rank_of_part(part: &str) -> (r: char)
    ensures
        r == part_rank(part@),
{
    proof {
        reveal_strlit("\\");
        reveal_strlit(".");
        reveal_strlit("..");
        assert("\\"@ =~= seq!['\\']);
        assert("."@ =~= seq!['.']);
        assert(".."@ =~= seq!['.', '.']);
    }
    if text::same(part, "\\") {
        '6'
    } else if text::same(part, ".") {
        '7'
    } else if text::same(part, "..") {
        '8'
    } else {
        '9'
    }
}

fn ranked_part_of(kind: PrefixKind, is_prefix: bool, part: &str) -> (r: String)
    ensures
        r@ == if is_prefix {
            seq![prefix_rank(kind)] + compared_prefix(kind, part@)
        } else {
            seq![part_rank(part@)] + part@
        },
{
    let mut r = String::new();
    if is_prefix {
        r.push(rank_of_prefix(kind));
        match kind {
            PrefixKind::Share => r.push_str(text::replace_char(part, '/', '\0').as_str()),
            PrefixKind::VerbatimShare => r.push_str(
                text::replace_char(part, '\\', '\0').as_str(),
            ),
            _ => r.push_str(part),
        }
        assert(r@ =~= seq![prefix_rank(kind)] + compared_prefix(kind, part@));
    } else {
        r.push(rank_of_part(part));
        r.push_str(part);
        assert(r@ =~= seq![part_rank(part@)] + part@);
    }
    r
}

/// The text by which a path is ordered.
pub fn order_key_of(s: &str) -> (r: String)
    ensures
        r@ == order_key(s@),
{
    let kind = path::prefix_kind_of(s);
    let parts = path::components_of(s);
    let ghost all = Seq::new(path::components(s@).len(), |i: int| ranked_part(s@, i));
    let mut ranked: Vec<String> = Vec::new();
    let mut i: usize = 0;
    assert(text::texts(parts@).len() == parts@.len());
    assert(text::texts(ranked@) =~= all.take(0));
    while i < parts.len()
        invariant
            i <= parts@.len(),
            text::texts(parts@) == path::components(s@),
            all == Seq::new(path::components(s@).len(), |i: int| ranked_part(s@, i)),
            kind == path::prefix_kind(s@),
            text::texts(ranked@) == all.take(i as int),
        decreases parts@.len() - i,
    {
        assert(text::texts(parts@)[i as int] == parts@[i as int]@);
        let is_prefix = i == 0 && !matches!(kind, PrefixKind::Nothing);
        let one = ranked_part_of(kind, is_prefix, parts[i].as_str());
        assert(one@ == ranked_part(s@, i as int));
        proof {
            text::lemma_texts_push(ranked@, one);
        }
        ranked.push(one);
        assert(all.take(i + 1) =~= all.take(i as int).push(one@));
        i = i + 1;
    }
    assert(all.take(i as int) =~= all);
    proof {
        reveal_strlit("\0");
        assert("\0"@ =~= seq!['\0']);
    }
    text::join(&ranked, "\0")
}

/// Whether a list holds a path with the components of another.
pub open spec fn is_listed(paths: Seq<String>, path: Seq<char>) -> bool {
    exists|i: int| 0 <= i < paths.len() && order_key((#[trigger] paths[i])@) == order_key(path)
}

/// Whether paths stand in the order of their components, none twice.
pub open spec fn is_in_order(paths: Seq<String>) -> bool {
    forall|i: int, j: int|
        0 <= i < j < paths.len() ==> text::text_before(
            order_key((#[trigger] paths[i])@),
            order_key((#[trigger] paths[j])@),
        )
}

/// Whether no path stands before one that is ordered before it.
spec fn is_never_falling(paths: Seq<String>) -> bool {
    forall|i: int, j: int|
        0 <= i < j < paths.len() ==> !text::text_before(
            order_key((#[trigger] paths[j])@),
            order_key((#[trigger] paths[i])@),
        )
}

proof fn lemma_listed_push(paths: Seq<String>, added: String)
    ensures
        is_listed(paths.push(added), added@),
        forall|t: Seq<char>| is_listed(paths, t) ==> #[trigger] is_listed(paths.push(added), t),
{
    let r = paths.push(added);
    assert(r[paths.len() as int] == added);
    assert forall|t: Seq<char>| is_listed(paths, t) implies #[trigger] is_listed(r, t) by {
        let k = choose|k: int|
            0 <= k < paths.len() && order_key((#[trigger] paths[k])@) == order_key(t);
        assert(r[k] == paths[k]);
    }
}

proof fn lemma_in_order_push(paths: Seq<String>, added: String)
    requires
        is_in_order(paths),
        paths.len() > 0 ==> text::text_before(order_key(paths.last()@), order_key(added@)),
    ensures
        is_in_order(paths.push(added)),
{
    let r = paths.push(added);
    assert forall|i: int, j: int| 0 <= i < j < r.len() implies text::text_before(
        order_key((#[trigger] r[i])@),
        order_key((#[trigger] r[j])@),
    ) by {
        assert(r[i] == paths[i]);
        if j < paths.len() {
            assert(r[j] == paths[j]);
        } else if i < paths.len() - 1 {
            assert(paths[paths.len() - 1] == paths.last());
            text::lemma_text_before_transitive(
                order_key(paths[i]@),
                order_key(paths.last()@),
                order_key(added@),
            );
        }
    }
}

/// Keeps the first of neighbours with the same components.
#[verifier::loop_isolation(true)]
fn without_repeats(paths: Vec<String>) -> (r: Vec<String>)
    requires
        is_never_falling(paths@),
    ensures
        forall|t: Seq<char>| #[trigger] holds_text(r@, t) ==> holds_text(paths@, t),
        forall|t: Seq<char>| #[trigger] holds_text(paths@, t) ==> is_listed(r@, t),
        is_in_order(r@),
{
    let ghost all = paths@;
    let mut left = Queue::of(paths);
    let mut r: Vec<String> = Vec::new();
    let ghost mut n: int = 0;
    assert(left@ =~= all.skip(0));
    while left.len() > 0
        invariant
            0 <= n <= all.len(),
            left@ == all.skip(n),
            is_never_falling(all),
            is_in_order(r@),
            n > 0 ==> r@.len() > 0 && order_key(r@.last()@) == order_key(all[n - 1]@),
            n == 0 ==> r@.len() == 0,
            forall|t: Seq<char>| #[trigger] holds_text(r@, t) ==> holds_text(all, t),
            forall|i: int| 0 <= i < n ==> is_listed(r@, (#[trigger] all[i])@),
        decreases left@.len(),
    {
        let item = left.take_first();
        assert(item == all[n]);
        assert(left@ =~= all.skip(n + 1));
        let key = order_key_of(item.as_str());
        let repeated = r.len() > 0 && {
            let last = order_key_of(r[r.len() - 1].as_str());
            text::same(last.as_str(), key.as_str())
        };
        let ghost before = r@;
        if repeated {
            assert(order_key(r@[r@.len() - 1]@) == order_key(item@));
            assert(is_listed(r@, item@));
        } else {
            r.push(item);
            proof {
                if n > 0 {
                    assert(!text::text_before(order_key(all[n]@), order_key(all[n - 1]@)));
                    text::lemma_text_before_total(order_key(all[n]@), order_key(all[n - 1]@));
                }
                lemma_in_order_push(before, item);
                lemma_listed_push(before, item);
                list::lemma_holds_text_push(before, item);
                assert(holds_text(all, item@));
            }
        }
        proof {
            n = n + 1;
        }
    }
    r
}

/// Paths in the order of their components. Of several that have the same
/// components the first is kept.
#[verifier::loop_isolation(true)]
pub fn sorted_paths(paths: Vec<String>) -> (r: Vec<String>)
    ensures
        forall|t: Seq<char>| #[trigger] holds_text(r@, t) ==> holds_text(paths@, t),
        forall|t: Seq<char>| #[trigger] holds_text(paths@, t) ==> is_listed(r@, t),
        is_in_order(r@),
{
    let ghost all = paths@;
    let mut rest = Queue::of(paths);
    let mut keyed: Vec<Keyed<String>> = Vec::new();
    assert(rest@ =~= all.skip(0));
    while rest.len() > 0
        invariant
            keyed@.len() + rest@.len() == all.len(),
            rest@ == all.skip(keyed@.len() as int),
            forall|i: int|
                0 <= i < keyed@.len() ==> (#[trigger] keyed@[i]).item == all[i] && keyed@[i].key@
                    == order_key(all[i]@),
        decreases rest@.len(),
    {
        let ghost n = keyed@.len() as int;
        let item = rest.take_first();
        assert(item == all[n]);
        assert(rest@ =~= all.skip(n + 1));
        let key = order_key_of(item.as_str());
        keyed.push(Keyed { key, item });
    }
    assert(list::items_of(keyed@) =~= all);
    let sorted = list::sort_keyed(keyed);
    proof {
        assert(list::is_sorted_by(all, sorted@, by_components()));
        lemma_sorted_by_components(all, sorted@);
    }
    without_repeats(sorted)
}

proof fn lemma_sorted_by_components(v: Seq<String>, r: Seq<String>)
    requires
        list::is_sorted_by(v, r, by_components()),
    ensures
        is_never_falling(r),
        forall|t: Seq<char>|
            #![trigger holds_text(r, t)]
            #![trigger holds_text(v, t)]
            holds_text(r, t) <==> holds_text(v, t),
{
    let p = choose|p: Seq<int>| list::is_arranged_by(v, r, by_components(), p);
    assert forall|i: int, j: int| 0 <= i < j < r.len() implies !text::text_before(
        order_key((#[trigger] r[j])@),
        order_key((#[trigger] r[i])@),
    ) by {
        assert(by_components()(r[j]) == order_key(r[j]@));
        assert(by_components()(r[i]) == order_key(r[i]@));
    }
    assert forall|t: Seq<char>| #[trigger] holds_text(r, t) <==> holds_text(v, t) by {
        if holds_text(r, t) {
            let i = choose|i: int| 0 <= i < r.len() && (#[trigger] r[i])@ == t;
            assert(v[p[i]]@ == t);
        }
        if holds_text(v, t) {
            let j = choose|j: int| 0 <= j < v.len() && (#[trigger] v[j])@ == t;
            list::lemma_every_position_occurs(p, v.len() as int, j);
            let i = choose|i: int| 0 <= i < p.len() && #[trigger] p[i] == j;
            assert(r[i]@ == t);
        }
    }
}

} // verus!
