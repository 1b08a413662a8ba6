//! Lists: stable sorting, removal of repeats and membership.

#![verifier::loop_isolation(false)]

use vstd::prelude::*;

use crate::text::{is_before, same};

verus! {

/// A list that is used up from its beginning, each item in constant time.
#[derive(Debug)]
pub struct Queue<T> {
    /// The items that are left, the next one last.
    reversed: Vec<T>,
}

impl<T> View for Queue<T> {
    type V = Seq<T>;

    /// The items that are left, the next one first.
    closed spec fn view(&self) -> Seq<T> {
        self.reversed@.reverse()
    }
}

impl<T> Queue<T> {
    /// All items of a list.
    pub fn of(items: Vec<T>) -> (r: Self)
        ensures
            r@ == items@,
    {
        let ghost all = items@;
        let mut rest = items;
        let mut reversed: Vec<T> = Vec::new();
        assert(rest@ + reversed@.reverse() =~= all);
        while rest.len() > 0
            invariant
                rest@ + reversed@.reverse() == all,
            decreases rest@.len(),
        {
            let ghost before = reversed@;
            let ghost left = rest@;
            let item = rest.pop().unwrap();
            assert(left =~= rest@.push(item));
            reversed.push(item);
            assert(reversed@.reverse() =~= seq![item] + before.reverse());
            assert(rest@ + reversed@.reverse() =~= rest@.push(item) + before.reverse());
        }
        assert(reversed@.reverse() =~= all);
        Queue { reversed }
    }

    pub fn len(&self) -> (r: usize)
        ensures
            r == self@.len(),
    {
        self.reversed.len()
    }

    /// The next item.
    pub fn first(&self) -> (r: &T)
        requires
            self@.len() > 0,
        ensures
            *r == self@[0],
    {
        &self.reversed[self.reversed.len() - 1]
    }

    /// Takes the next item.
    pub fn take_first(&mut self) -> (r: T)
        requires
            old(self)@.len() > 0,
        ensures
            r == old(self)@[0],
            final(self)@ == old(self)@.remove(0),
    {
        let ghost before = self.reversed@;
        let r = self.reversed.pop().unwrap();
        assert(self.reversed@.reverse() =~= before.reverse().remove(0));
        r
    }
}

/// Values that can be put in order. `before` is a strict weak order: two values
/// neither of which stands before the other rank alike.
pub trait Ranked: Sized {
    spec fn before(self, other: Self) -> bool;

    proof fn lemma_ranks_transitive(a: Self, b: Self, c: Self)
        ensures
            !a.before(b) && !b.before(c) ==> !a.before(c),
    ;

    proof fn lemma_ranks_asymmetric(a: Self, b: Self)
        ensures
            a.before(b) ==> !b.before(a),
    ;

    fn precedes(&self, other: &Self) -> (r: bool)
        ensures
            r == self.before(*other),
    ;
}

/// Whether `r` holds the items of `v` in the order of the positions `p`: every
/// position once, in rank order, and items that rank alike in the order in
/// which they stood in `v`.
pub open spec fn is_stable_rearrangement<T: Ranked>(v: Seq<T>, r: Seq<T>, p: Seq<int>) -> bool {
    &&& p.len() == v.len()
    &&& r.len() == v.len()
    &&& forall|i: int| 0 <= i < p.len() ==> 0 <= #[trigger] p[i] < v.len() && r[i] == v[p[i]]
    &&& forall|i: int, j: int| 0 <= i < j < p.len() ==> #[trigger] p[i] != #[trigger] p[j]
    &&& forall|i: int, j: int|
        0 <= i < j < p.len() ==> !(#[trigger] r[j]).before(#[trigger] r[i]) && (!r[i].before(r[j])
            ==> p[i] < p[j])
}

/// Whether `r` is `v` sorted, with items that rank alike left in their order.
pub open spec fn is_stable_sort<T: Ranked>(v: Seq<T>, r: Seq<T>) -> bool {
    exists|p: Seq<int>| is_stable_rearrangement(v, r, p)
}

/// Whether sorted halves have been merged so far. The list `v` is parted at `m`;
/// `a` and `b` are its sorted halves, with the positions `p` and `q`. Of the
/// first `i` and `j` items of these, `r` holds those at the positions `s` of
/// `v`; `o` gives their positions in `a` or `b`.
spec fn is_merged<T: Ranked>(
    v: Seq<T>,
    m: int,
    a: Seq<T>,
    b: Seq<T>,
    p: Seq<int>,
    q: Seq<int>,
    i: int,
    j: int,
    r: Seq<T>,
    s: Seq<int>,
    o: Seq<int>,
) -> bool {
    &&& 0 <= i <= a.len()
    &&& 0 <= j <= b.len()
    &&& r.len() == i + j
    &&& s.len() == i + j
    &&& o.len() == i + j
    &&& forall|k: int|
        0 <= k < s.len() ==> 0 <= #[trigger] s[k] < v.len() && r[k] == v[s[k]] && 0 <= o[k] && if s[k]
            < m {
            o[k] < i && s[k] == p[o[k]] && r[k] == a[o[k]]
        } else {
            o[k] < j && s[k] == q[o[k]] + m && r[k] == b[o[k]]
        }
    &&& forall|k: int, l: int|
        0 <= k < l < s.len() && (s[k] < m <==> s[l] < m) ==> #[trigger] o[k] < #[trigger] o[l]
    &&& forall|k: int, l: int|
        0 <= k < l < s.len() ==> !(#[trigger] r[l]).before(#[trigger] r[k]) && (!r[k].before(r[l])
            ==> s[k] < s[l])
    &&& forall|k: int, x: int|
        0 <= k < s.len() && s[k] >= m && i <= x < a.len() ==> (#[trigger] r[k]).before(
            #[trigger] a[x],
        )
    &&& forall|k: int, y: int|
        0 <= k < s.len() && s[k] < m && j <= y < b.len() ==> !(#[trigger] b[y]).before(
            #[trigger] r[k],
        )
}

proof fn lemma_merge_takes_left<T: Ranked>(
    v: Seq<T>,
    m: int,
    a: Seq<T>,
    b: Seq<T>,
    p: Seq<int>,
    q: Seq<int>,
    i: int,
    j: int,
    r: Seq<T>,
    s: Seq<int>,
    o: Seq<int>,
)
    requires
        0 <= m <= v.len(),
        is_stable_rearrangement(v.take(m), a, p),
        is_stable_rearrangement(v.skip(m), b, q),
        is_merged(v, m, a, b, p, q, i, j, r, s, o),
        i < a.len(),
        j < b.len() ==> !b[j].before(a[i]),
    ensures
        is_merged(v, m, a, b, p, q, i + 1, j, r.push(a[i]), s.push(p[i]), o.push(i)),
{
    let x = a[i];
    let r1 = r.push(x);
    let s1 = s.push(p[i]);
    let o1 = o.push(i);
    assert(v.take(m)[p[i]] == v[p[i]]);
    assert forall|k: int| 0 <= k < s.len() implies !x.before(#[trigger] r[k]) && (!r[k].before(x)
        ==> s[k] < p[i]) by {
        if s[k] < m {
            assert(a[o[k]] == r[k]);
        } else {
            assert(r[k].before(a[i]));
            T::lemma_ranks_asymmetric(r[k], x);
        }
    }
    assert forall|k: int, l: int| 0 <= k < l < s1.len() implies !(#[trigger] r1[l]).before(
        #[trigger] r1[k],
    ) && (!r1[k].before(r1[l]) ==> s1[k] < s1[l]) by {
        assert(r1[k] == r[k]);
        if l < s.len() {
            assert(r1[l] == r[l]);
        }
    }
    assert forall|k: int, y: int| 0 <= k < s1.len() && s1[k] < m && j <= y < b.len() implies !(
    #[trigger] b[y]).before(#[trigger] r1[k]) by {
        if k < s.len() {
            assert(r1[k] == r[k]);
        } else if y > j {
            T::lemma_ranks_transitive(b[y], b[j], x);
        }
    }
    assert forall|k: int, y: int| 0 <= k < s1.len() && s1[k] >= m && i + 1 <= y < a.len() implies (
    #[trigger] r1[k]).before(#[trigger] a[y]) by {
        assert(r1[k] == r[k]);
    }
}

proof fn lemma_merge_takes_right<T: Ranked>(
    v: Seq<T>,
    m: int,
    a: Seq<T>,
    b: Seq<T>,
    p: Seq<int>,
    q: Seq<int>,
    i: int,
    j: int,
    r: Seq<T>,
    s: Seq<int>,
    o: Seq<int>,
)
    requires
        0 <= m <= v.len(),
        is_stable_rearrangement(v.take(m), a, p),
        is_stable_rearrangement(v.skip(m), b, q),
        is_merged(v, m, a, b, p, q, i, j, r, s, o),
        j < b.len(),
        i < a.len() ==> b[j].before(a[i]),
    ensures
        is_merged(v, m, a, b, p, q, i, j + 1, r.push(b[j]), s.push(q[j] + m), o.push(j)),
{
    let x = b[j];
    let r1 = r.push(x);
    let s1 = s.push(q[j] + m);
    let o1 = o.push(j);
    assert(v.skip(m)[q[j]] == v[q[j] + m]);
    assert forall|k: int| 0 <= k < s.len() implies !x.before(#[trigger] r[k]) && (!r[k].before(x)
        ==> s[k] < q[j] + m) by {
        if s[k] < m {
            assert(!b[j].before(r[k]));
        } else {
            assert(b[o[k]] == r[k]);
        }
    }
    assert forall|k: int, l: int| 0 <= k < l < s1.len() implies !(#[trigger] r1[l]).before(
        #[trigger] r1[k],
    ) && (!r1[k].before(r1[l]) ==> s1[k] < s1[l]) by {
        assert(r1[k] == r[k]);
        if l < s.len() {
            assert(r1[l] == r[l]);
        }
    }
    assert forall|k: int, y: int| 0 <= k < s1.len() && s1[k] >= m && i <= y < a.len() implies (
    #[trigger] r1[k]).before(#[trigger] a[y]) by {
        if k < s.len() {
            assert(r1[k] == r[k]);
        } else if y > i {
            T::lemma_ranks_transitive(x, a[y], a[i]);
        }
    }
    assert forall|k: int, y: int| 0 <= k < s1.len() && s1[k] < m && j + 1 <= y < b.len() implies !(
    #[trigger] b[y]).before(#[trigger] r1[k]) by {
        assert(r1[k] == r[k]);
    }
}

/// Merges the sorted halves of `v`, which is parted at `m`.
fn merge<T: Ranked>(first: Vec<T>, second: Vec<T>, v: Ghost<Seq<T>>, m: Ghost<int>) -> (r: Vec<T>)
    requires
        0 <= m@ <= v@.len(),
        is_stable_sort(v@.take(m@), first@),
        is_stable_sort(v@.skip(m@), second@),
    ensures
        is_stable_sort(v@, r@),
{
    let ghost all = v@;
    let ghost half = m@;
    let ghost a = first@;
    let ghost b = second@;
    let ghost p = choose|p: Seq<int>| is_stable_rearrangement(all.take(half), a, p);
    let ghost q = choose|q: Seq<int>| is_stable_rearrangement(all.skip(half), b, q);
    let mut left = Queue::of(first);
    let mut right = Queue::of(second);
    let mut r: Vec<T> = Vec::new();
    let ghost mut i: int = 0;
    let ghost mut j: int = 0;
    let ghost mut s: Seq<int> = seq![];
    let ghost mut o: Seq<int> = seq![];
    assert(left@ =~= a.skip(0));
    assert(right@ =~= b.skip(0));
    while left.len() > 0 || right.len() > 0
        invariant
            is_merged(all, half, a, b, p, q, i, j, r@, s, o),
            left@ == a.skip(i),
            right@ == b.skip(j),
        decreases left@.len() + right@.len(),
    {
        let from_left = if left.len() == 0 {
            false
        } else if right.len() == 0 {
            true
        } else {
            !right.first().precedes(left.first())
        };
        if from_left {
            proof {
                lemma_merge_takes_left(all, half, a, b, p, q, i, j, r@, s, o);
            }
            let x = left.take_first();
            r.push(x);
            proof {
                s = s.push(p[i]);
                o = o.push(i);
                i = i + 1;
                assert(left@ =~= a.skip(i));
            }
        } else {
            proof {
                lemma_merge_takes_right(all, half, a, b, p, q, i, j, r@, s, o);
            }
            let x = right.take_first();
            r.push(x);
            proof {
                s = s.push(q[j] + half);
                o = o.push(j);
                j = j + 1;
                assert(right@ =~= b.skip(j));
            }
        }
    }
    proof {
        assert forall|k: int, l: int| 0 <= k < l < s.len() implies #[trigger] s[k] != #[trigger] s[l] by {
            if s[k] < half && s[l] < half {
                assert(o[k] < o[l]);
                assert(p[o[k]] != p[o[l]]);
            } else if s[k] >= half && s[l] >= half {
                assert(o[k] < o[l]);
                assert(q[o[k]] != q[o[l]]);
            }
        }
        assert(is_stable_rearrangement(all, r@, s));
    }
    r
}

/// Sorts a list; items that rank alike keep their order.
pub fn stable_sort<T: Ranked>(v: Vec<T>) -> (r: Vec<T>)
    ensures
        is_stable_sort(v@, r@),
    decreases v@.len(),
{
    let ghost all = v@;
    let n: usize = v.len();
    if n < 2 {
        proof {
            let p = Seq::new(all.len(), |i: int| i);
            assert(is_stable_rearrangement(all, all, p));
        }
        return v;
    }
    let m: usize = n / 2;
    let mut first = v;
    let second = first.split_off(m);
    assert(first@ =~= all.take(m as int));
    assert(second@ =~= all.skip(m as int));
    let first = stable_sort(first);
    let second = stable_sort(second);
    merge(first, second, Ghost(all), Ghost(m as int))
}

impl Ranked for String {
    open spec fn before(self, other: Self) -> bool {
        crate::text::text_before(self@, other@)
    }

    proof fn lemma_ranks_transitive(a: Self, b: Self, c: Self) {
        crate::text::lemma_text_before_transitive(a@, b@, c@);
    }

    proof fn lemma_ranks_asymmetric(a: Self, b: Self) {
        crate::text::lemma_text_before_total(a@, b@);
    }

    fn precedes(&self, other: &Self) -> (r: bool) {
        is_before(self.as_str(), other.as_str())
    }
}

/// The list without the items that hold the same text as their predecessor.
pub open spec fn without_repeats(s: Seq<String>) -> Seq<String>
    decreases s.len(),
{
    if s.len() < 2 {
        s
    } else if s[s.len() - 1]@ == s[s.len() - 2]@ {
        without_repeats(s.drop_last())
    } else {
        without_repeats(s.drop_last()).push(s.last())
    }
}

/// The kept items end with the text that the list ends with.
proof fn lemma_without_repeats_last(s: Seq<String>)
    requires
        s.len() > 0,
    ensures
        without_repeats(s).len() > 0,
        without_repeats(s).last()@ == s.last()@,
    decreases s.len(),
{
    if s.len() >= 2 {
        lemma_without_repeats_last(s.drop_last());
    }
}

/// Removes the items that hold the same text as their predecessor.
pub fn remove_repeats(v: Vec<String>) -> (r: Vec<String>)
    ensures
        r@ == without_repeats(v@),
{
    let ghost all = v@;
    let mut rest = Queue::of(v);
    let mut r: Vec<String> = Vec::new();
    let ghost mut n: int = 0;
    assert(rest@ =~= all.skip(0));
    while rest.len() > 0
        invariant
            0 <= n <= all.len(),
            n + rest@.len() == all.len(),
            rest@ == all.skip(n),
            r@ == without_repeats(all.take(n)),
        decreases rest@.len(),
    {
        let x = rest.take_first();
        assert(x == all[n]);
        assert(rest@ =~= all.skip(n + 1));
        assert(all.take(n + 1).drop_last() =~= all.take(n));
        proof {
            if n > 0 {
                lemma_without_repeats_last(all.take(n));
            }
        }
        let repeated = r.len() > 0 && same(r[r.len() - 1].as_str(), x.as_str());
        if !repeated {
            r.push(x);
        }
        assert(n == 0 ==> all.take(1) =~= seq![all[0]]);
        proof {
            n = n + 1;
        }
    }
    assert(all.take(n) =~= all);
    r
}

/// Whether some item of the list holds the text.
pub open spec fn holds_text(v: Seq<String>, s: Seq<char>) -> bool {
    exists|i: int| 0 <= i < v.len() && (#[trigger] v[i])@ == s
}

/// Whether some item of the list holds the text.
pub fn has_text(v: &Vec<String>, s: &str) -> (r: bool)
    ensures
        r == holds_text(v@, s@),
{
    let mut i: usize = 0;
    while i < v.len()
        invariant
            i <= v@.len(),
            forall|j: int| 0 <= j < i ==> (#[trigger] v@[j])@ != s@,
        decreases v@.len() - i,
    {
        if same(v[i].as_str(), s) {
            return true;
        }
        i = i + 1;
    }
    false
}

/// A copy of a list of strings.
pub fn copy_texts(v: &Vec<String>) -> (r: Vec<String>)
    ensures
        r@ == v@,
{
    let mut r: Vec<String> = Vec::new();
    let mut i: usize = 0;
    while i < v.len()
        invariant
            i <= v@.len(),
            r@ == v@.take(i as int),
        decreases v@.len() - i,
    {
        r.push(v[i].clone());
        i = i + 1;
        assert(v@.take(i as int) =~= v@.take(i - 1).push(v@[i - 1]));
    }
    assert(v@.take(i as int) =~= v@);
    r
}

/// After a push the list holds the pushed text and those it held before.
pub proof fn lemma_holds_text_push(v: Seq<String>, s: String)
    ensures
        forall|t: Seq<char>| #[trigger]
            holds_text(v.push(s), t) <==> (holds_text(v, t) || t == s@),
{
    assert forall|t: Seq<char>| #[trigger] holds_text(v.push(s), t) <==> (holds_text(v, t) || t
        == s@) by {
        if holds_text(v, t) {
            let i = choose|i: int| 0 <= i < v.len() && (#[trigger] v[i])@ == t;
            assert(v.push(s)[i]@ == t);
        }
        if t == s@ {
            assert(v.push(s)[v.len() as int]@ == t);
        }
        if holds_text(v.push(s), t) {
            let i = choose|i: int| 0 <= i < v.push(s).len() && (#[trigger] v.push(s)[i])@ == t;
            if i < v.len() {
                assert(v[i]@ == t);
            }
        }
    }
}

/// A sorted list holds the texts of the list it was made from.
pub proof fn lemma_sort_keeps_texts(v: Seq<String>, r: Seq<String>)
    requires
        is_stable_sort(v, r),
    ensures
        forall|t: Seq<char>| #[trigger] holds_text(r, t) <==> holds_text(v, t),
{
    let p = choose|p: Seq<int>| is_stable_rearrangement(v, r, p);
    assert forall|t: Seq<char>| #[trigger] holds_text(r, t) <==> holds_text(v, t) by {
        if holds_text(r, t) {
            let i = choose|i: int| 0 <= i < r.len() && (#[trigger] r[i])@ == t;
            assert(v[p[i]]@ == t);
        }
        if holds_text(v, t) {
            let j = choose|j: int| 0 <= j < v.len() && (#[trigger] v[j])@ == t;
            lemma_every_position_occurs(p, v.len() as int, j);
            let i = choose|i: int| 0 <= i < p.len() && #[trigger] p[i] == j;
            assert(r[i]@ == t);
        }
    }
}

/// A sequence of as many different positions as there are holds each of them.
pub proof fn lemma_every_position_occurs(p: Seq<int>, n: int, j: int)
    requires
        p.len() == n,
        0 <= j < n,
        forall|i: int| 0 <= i < n ==> 0 <= #[trigger] p[i] < n,
        forall|i: int, k: int| 0 <= i < k < n ==> #[trigger] p[i] != #[trigger] p[k],
    ensures
        exists|i: int| 0 <= i < n && #[trigger] p[i] == j,
{
    if forall|i: int| 0 <= i < n ==> #[trigger] p[i] != j {
        let all = vstd::set_lib::set_int_range(0, n);
        vstd::set_lib::lemma_int_range(0, n);
        p.unique_seq_to_set();
        let occurring = p.to_set();
        assert(occurring.subset_of(all.remove(j)));
        vstd::set_lib::lemma_len_subset(occurring, all.remove(j));
        assert(false);
    }
}

/// Where no text is repeated, each stands strictly before the next.
proof fn lemma_without_repeats_increases(s: Seq<String>)
    requires
        forall|i: int, j: int|
            0 <= i < j < s.len() ==> !(#[trigger] s[j]).before(#[trigger] s[i]),
    ensures
        forall|t: Seq<char>| #[trigger] holds_text(without_repeats(s), t) <==> holds_text(s, t),
        forall|i: int, j: int|
            0 <= i < j < without_repeats(s).len() ==> crate::text::text_before(
                (#[trigger] without_repeats(s)[i])@,
                (#[trigger] without_repeats(s)[j])@,
            ),
    decreases s.len(),
{
    if s.len() >= 2 {
        let front = s.drop_last();
        let r = without_repeats(front);
        assert forall|i: int, j: int| 0 <= i < j < front.len() implies !(
        #[trigger] front[j]).before(#[trigger] front[i]) by {
            assert(front[j] == s[j] && front[i] == s[i]);
        }
        lemma_without_repeats_increases(front);
        lemma_without_repeats_last(front);
        lemma_holds_text_push(front, s.last());
        assert(s =~= front.push(s.last()));
        if s[s.len() - 1]@ == s[s.len() - 2]@ {
            assert(front[front.len() - 1]@ == s.last()@);
            assert(holds_text(front, s.last()@));
        } else {
            lemma_holds_text_push(r, s.last());
            let k = r.len() - 1;
            crate::text::lemma_text_before_total(s.last()@, front.last()@);
            assert(!s[s.len() - 1].before(s[s.len() - 2]));
            assert(crate::text::text_before(r[k]@, s.last()@));
            assert forall|i: int| 0 <= i < r.len() implies crate::text::text_before(
                (#[trigger] r[i])@,
                s.last()@,
            ) by {
                if i < k {
                    crate::text::lemma_text_before_transitive(r[i]@, r[k]@, s.last()@);
                }
            }
        }
    }
}

/// The texts of a list, each once, in order.
pub fn sorted_texts(v: Vec<String>) -> (r: Vec<String>)
    ensures
        forall|t: Seq<char>| #[trigger] holds_text(r@, t) <==> holds_text(v@, t),
        forall|i: int, j: int|
            0 <= i < j < r@.len() ==> crate::text::text_before(
                (#[trigger] r@[i])@,
                (#[trigger] r@[j])@,
            ),
{
    let ghost all = v@;
    let sorted = stable_sort(v);
    proof {
        lemma_sort_keeps_texts(all, sorted@);
        lemma_without_repeats_increases(sorted@);
    }
    remove_repeats(sorted)
}

/// An item and the text by which it is ordered.
pub struct Keyed<T> {
    pub key: String,
    pub item: T,
}

impl<T> Ranked for Keyed<T> {
    open spec fn before(self, other: Self) -> bool {
        crate::text::text_before(self.key@, other.key@)
    }

    proof fn lemma_ranks_transitive(a: Self, b: Self, c: Self) {
        crate::text::lemma_text_before_transitive(a.key@, b.key@, c.key@);
    }

    proof fn lemma_ranks_asymmetric(a: Self, b: Self) {
        crate::text::lemma_text_before_total(a.key@, b.key@);
    }

    fn precedes(&self, other: &Self) -> (r: bool) {
        is_before(self.key.as_str(), other.key.as_str())
    }
}

/// Whether `r` holds the items of `v` in the order of the positions `p`: every
/// position once, in the order of the items' keys, and items with one key in
/// the order in which they stood in `v`.
pub open spec fn is_arranged_by<T>(
    v: Seq<T>,
    r: Seq<T>,
    key: spec_fn(T) -> Seq<char>,
    p: Seq<int>,
) -> bool {
    &&& p.len() == v.len()
    &&& r.len() == v.len()
    &&& forall|i: int| 0 <= i < p.len() ==> 0 <= #[trigger] p[i] < v.len() && r[i] == v[p[i]]
    &&& forall|i: int, j: int| 0 <= i < j < p.len() ==> #[trigger] p[i] != #[trigger] p[j]
    &&& forall|i: int, j: int|
        0 <= i < j < p.len() ==> !crate::text::text_before(
            key(#[trigger] r[j]),
            key(#[trigger] r[i]),
        ) && (key(r[i]) == key(r[j]) ==> p[i] < p[j])
}

/// Whether `r` is `v` sorted by a key, with items of one key left in their
/// order.
pub open spec fn is_sorted_by<T>(v: Seq<T>, r: Seq<T>, key: spec_fn(T) -> Seq<char>) -> bool {
    exists|p: Seq<int>| is_arranged_by(v, r, key, p)
}

/// Sorts items by their keys; items with one key keep their order.
pub fn sort_keyed<T>(v: Vec<Keyed<T>>) -> (r: Vec<T>)
    ensures
        forall|key: spec_fn(T) -> Seq<char>|
            (forall|i: int| 0 <= i < v@.len() ==> (#[trigger] v@[i]).key@ == key(v@[i].item))
                ==> #[trigger] is_sorted_by(items_of(v@), r@, key),
{
    let ghost all = v@;
    let mut sorted = Queue::of(stable_sort(v));
    let ghost ranked = sorted@;
    let mut r: Vec<T> = Vec::new();
    assert(sorted@ =~= ranked.skip(0));
    while sorted.len() > 0
        invariant
            r@.len() + sorted@.len() == ranked.len(),
            sorted@ == ranked.skip(r@.len() as int),
            forall|i: int| 0 <= i < r@.len() ==> #[trigger] r@[i] == ranked[i].item,
        decreases sorted@.len(),
    {
        let ghost n = r@.len() as int;
        let keyed = sorted.take_first();
        assert(keyed == ranked[n]);
        assert(sorted@ =~= ranked.skip(n + 1));
        r.push(keyed.item);
    }
    proof {
        let p = choose|p: Seq<int>| is_stable_rearrangement(all, ranked, p);
        assert forall|key: spec_fn(T) -> Seq<char>|
            (forall|i: int| 0 <= i < all.len() ==> (#[trigger] all[i]).key@ == key(
                all[i].item,
            )) implies #[trigger] is_sorted_by(items_of(all), r@, key) by {
            assert forall|i: int| 0 <= i < p.len() implies 0 <= #[trigger] p[i]
                < items_of(all).len() && r@[i] == items_of(all)[p[i]] && key(r@[i])
                == ranked[i].key@ by {
                assert(ranked[i] == all[p[i]]);
            }
            assert forall|i: int, j: int| 0 <= i < j < p.len() implies !crate::text::text_before(
                key(#[trigger] r@[j]),
                key(#[trigger] r@[i]),
            ) && (key(r@[i]) == key(r@[j]) ==> p[i] < p[j]) by {
                assert(0 <= p[i] && 0 <= p[j]);
                assert(!ranked[j].before(ranked[i]));
                crate::text::lemma_text_before_total(key(r@[i]), key(r@[j]));
            }
            assert(is_arranged_by(items_of(all), r@, key, p));
        }
    }
    r
}

/// The items of a sequence of keyed items.
pub open spec fn items_of<T>(v: Seq<Keyed<T>>) -> Seq<T> {
    Seq::new(v.len(), |i: int| v[i].item)
}

} // verus!
