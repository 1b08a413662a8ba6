//! What is promised of texts and paths: what trimming takes away, how a name is
//! made of its stem and its extension, and where paths stand in a list.

use vstd::prelude::*;

use crate::path;
use crate::path::{
    components, extension, is_on_disk, is_separator, joined, last_dot, last_extension, last_name,
    last_stem, lies_in, names, names_below_root, prefix_kind, stem,
};
use crate::path_order::{order_key, ranked_part};
use crate::text;
use crate::text::CharSet;

verus! {

/// Trimming takes only characters of the set from the two ends, and leaves none
/// there.
pub proof fn law_what_trimming_takes(s: Seq<char>, set: CharSet) -> (r: (int, int))
    ensures
        0 <= r.0 <= r.1 <= s.len(),
        text::trimmed(s, set) == s.subrange(r.0, r.1),
        forall|i: int| 0 <= i < r.0 || r.1 <= i < s.len() ==> set.holds(#[trigger] s[i]),
        r.0 < r.1 ==> !set.holds(s[r.0]) && !set.holds(s[r.1 - 1]),
{
    let a = lemma_start(s, set);
    let rest = s.skip(a);
    let b = lemma_end(rest, set);
    assert(rest.take(b) =~= s.subrange(a, a + b));
    assert forall|i: int| 0 <= i < a || a + b <= i < s.len() implies set.holds(
        #[trigger] s[i],
    ) by {
        if i >= a + b {
            assert(rest[i - a] == s[i]);
        }
    }
    (a, a + b)
}

proof fn lemma_start(s: Seq<char>, set: CharSet) -> (a: int)
    ensures
        0 <= a <= s.len(),
        text::trimmed_start(s, set) == s.skip(a),
        forall|i: int| 0 <= i < a ==> set.holds(#[trigger] s[i]),
        a < s.len() ==> !set.holds(s[a]),
    decreases s.len(),
{
    if s.len() > 0 && set.holds(s[0]) {
        let rest = s.drop_first();
        let n = lemma_start(rest, set);
        assert(rest.skip(n) =~= s.skip(n + 1));
        assert forall|i: int| 0 <= i < n + 1 implies set.holds(#[trigger] s[i]) by {
            if i > 0 {
                assert(rest[i - 1] == s[i]);
            }
        }
        n + 1
    } else {
        assert(s.skip(0) =~= s);
        0
    }
}

proof fn lemma_end(s: Seq<char>, set: CharSet) -> (b: int)
    ensures
        0 <= b <= s.len(),
        text::trimmed_end(s, set) == s.take(b),
        forall|i: int| b <= i < s.len() ==> set.holds(#[trigger] s[i]),
        b > 0 ==> !set.holds(s[b - 1]),
    decreases s.len(),
{
    if s.len() > 0 && set.holds(s.last()) {
        let rest = s.drop_last();
        let n = lemma_end(rest, set);
        assert(rest.take(n) =~= s.take(n));
        assert forall|i: int| n <= i < s.len() implies set.holds(#[trigger] s[i]) by {
            if i < rest.len() {
                assert(rest[i] == s[i]);
            }
        }
        n
    } else {
        assert(s.take(s.len() as int) =~= s);
        s.len() as int
    }
}

/// A text that neither begins nor ends with a character of the set is left as
/// it is.
pub proof fn law_plain_text_is_not_trimmed(s: Seq<char>, set: CharSet)
    requires
        s.len() > 0 ==> !set.holds(s[0]) && !set.holds(s.last()),
    ensures
        text::trimmed(s, set) == s,
{
}

proof fn lemma_last_dot(name: Seq<char>)
    ensures
        match last_dot(name) {
            Some(i) => 0 <= i < name.len() && name[i] == '.' && forall|j: int|
                i < j < name.len() ==> #[trigger] name[j] != '.',
            None => forall|j: int| 0 <= j < name.len() ==> #[trigger] name[j] != '.',
        },
    decreases name.len(),
{
    if name.len() > 0 && name.last() != '.' {
        let shorter = name.drop_last();
        lemma_last_dot(shorter);
        assert forall|j: int| 0 <= j < shorter.len() implies #[trigger] name[j] == shorter[j] by {}
    }
}

/// A name is its stem, a dot and its extension; without an extension it is its
/// own stem. The stem is not empty, and the extension holds no dot.
pub proof fn law_name_is_stem_and_extension(name: Seq<char>)
    ensures
        extension(name) matches Some(e) ==> name == stem(name).push('.') + e && stem(name).len() > 0
            && !e.contains('.'),
        extension(name) is None ==> stem(name) == name,
{
    lemma_last_dot(name);
    if let Some(e) = extension(name) {
        let i = last_dot(name)->0;
        assert(name =~= name.take(i).push('.') + name.skip(i + 1));
        if e.contains('.') {
            let j = choose|j: int| 0 <= j < e.len() && e[j] == '.';
            assert(name[i + 1 + j] == '.');
        }
    }
}

/// What is put together of a stem and an extension without a dot has that
/// extension.
pub proof fn law_extension_is_read_back(base: Seq<char>, ext: Seq<char>)
    requires
        base.len() > 0,
        !ext.contains('.'),
        base.push('.') + ext != seq!['.', '.'],
    ensures
        extension(base.push('.') + ext) == Some(ext),
        stem(base.push('.') + ext) == base,
{
    let name = base.push('.') + ext;
    let n = base.len() as int;
    reveal_strlit("..");
    assert(".."@ =~= seq!['.', '.']);
    lemma_last_dot(name);
    assert(name[n] == '.');
    let i = last_dot(name)->0;
    if i > n {
        assert(ext[i - n - 1] == name[i]);
        assert(ext.contains('.'));
    }
    assert(i == n);
    assert(name.skip(n + 1) =~= ext);
    assert(name.take(n) =~= base);
}

/// A name without a dot has no extension.
pub proof fn law_name_without_dot_has_no_extension(name: Seq<char>)
    requires
        !name.contains('.'),
    ensures
        extension(name) is None,
        stem(name) == name,
{
    lemma_last_dot(name);
}

/// Whether a text is one name of a path.
pub open spec fn is_one_name(name: Seq<char>) -> bool {
    &&& name.len() > 0
    &&& name != seq!['.']
    &&& name != seq!['.', '.']
    &&& forall|i: int| 0 <= i < name.len() ==> !is_separator(#[trigger] name[i]) && name[i] != ':'
}

proof fn lemma_one_name(name: Seq<char>)
    requires
        is_one_name(name),
    ensures
        prefix_kind(name) is Nothing,
        !path::has_separator_at_root(name),
        names(name, false) == seq![name],
{
    assert(!is_separator(name[0]));
    if name.len() > 1 {
        assert(name[1] != ':');
    }
    assert forall|i: int| 0 <= i < name.len() implies !path::separators(false).holds(
        #[trigger] name[i],
    ) by {
        assert(!is_separator(name[i]));
    }
    path::lemma_names_of_part(name, false);
}

/// What is taken by one name from a path on a disk bears that name and lies
/// directly in it.
pub proof fn law_what_is_below_a_path(base: Seq<char>, name: Seq<char>)
    requires
        is_on_disk(base),
        is_one_name(name),
    ensures
        last_name(joined(base, name)) == Some(name),
        last_stem(joined(base, name)) == stem(name),
        last_extension(joined(base, name)) == extension(name),
        lies_in(joined(base, name), base),
        !lies_in(base, joined(base, name)),
        components(joined(base, name)).len() == components(base).len() + 1,
{
    let whole = joined(base, name);
    lemma_one_name(name);
    path::law_joined_adds_the_names(base, name);
    assert(components(whole) =~= components(base).push(name));
    assert(path::head(base).len() == 2);
    assert(path::head(whole).len() <= 2);
    assert(names_below_root(whole).len() > 0);
    assert(components(whole).last() == names_below_root(whole).last());
    assert(components(base).is_prefix_of(components(whole)));
}

/// Lying in a path is passed on, and every path lies in itself.
pub proof fn law_lying_in_is_passed_on(a: Seq<char>, b: Seq<char>, c: Seq<char>)
    ensures
        lies_in(a, a),
        lies_in(a, b) && lies_in(b, c) ==> lies_in(a, c),
        lies_in(a, b) && lies_in(b, a) ==> components(a) == components(b),
{
    if lies_in(a, b) && lies_in(b, c) {
        let x = components(a);
        let z = components(c);
        assert(z =~= x.subrange(0, z.len() as int)) by {
            assert forall|i: int| 0 <= i < z.len() implies z[i] == x[i] by {
                assert(components(b).subrange(0, z.len() as int)[i] == z[i]);
                assert(x.subrange(0, components(b).len() as int)[i] == components(b)[i]);
            }
        }
    }
    if lies_in(a, b) && lies_in(b, a) {
        assert(components(a) =~= components(b));
    }
}

proof fn lemma_joined_of_more(parts: Seq<Seq<char>>, sep: Seq<char>, n: int)
    requires
        0 < n < parts.len(),
        sep.len() > 0,
    ensures
        text::has_prefix(text::joined(parts, sep), text::joined(parts.take(n), sep)),
        text::joined(parts, sep).len() > text::joined(parts.take(n), sep).len(),
    decreases parts.len(),
{
    let shorter = parts.drop_last();
    let a = text::joined(parts.take(n), sep);
    let b = text::joined(shorter, sep);
    let c = text::joined(parts, sep);
    assert(c == b + sep + parts.last());
    assert(c.subrange(0, b.len() as int) =~= b);
    if n == shorter.len() {
        assert(parts.take(n) =~= shorter);
    } else {
        lemma_joined_of_more(shorter, sep, n);
        assert(shorter.take(n) =~= parts.take(n));
        assert(c.subrange(0, a.len() as int) =~= b.subrange(0, a.len() as int));
    }
}

/// A directory is listed before all that lies in it.
pub proof fn law_directory_comes_before_what_it_holds(directory: Seq<char>, inner: Seq<char>)
    requires
        lies_in(inner, directory),
        components(directory).len() > 0,
        components(inner) != components(directory),
        prefix_kind(inner) == prefix_kind(directory),
    ensures
        text::text_before(order_key(directory), order_key(inner)),
{
    let n = components(directory).len() as int;
    let parts = Seq::new(components(inner).len(), |i: int| ranked_part(inner, i));
    let first = Seq::new(components(directory).len(), |i: int| ranked_part(directory, i));
    if components(inner).len() == n {
        assert(components(inner) =~= components(directory));
    }
    assert forall|i: int| 0 <= i < n implies ranked_part(inner, i) == ranked_part(
        directory,
        i,
    ) by {
        assert(components(inner).subrange(0, n)[i] == components(directory)[i]);
    }
    assert(parts.take(n) =~= first);
    lemma_joined_of_more(parts, seq!['\0'], n);
    text::lemma_prefix_in_order(order_key(directory), order_key(inner), order_key(inner));
}

} // verus!
