//! Windows paths as texts: their components, how they are joined, and what
//! lies below what.
//!
//! A path may begin with a prefix: a drive, a server and its share, a device,
//! or one of the verbatim prefixes, which begin with two backslashes, a question
//! mark and a backslash. Then comes the root, where there is one, and then the
//! names. Both kinds of slashes separate names; in a verbatim path the backslash
//! alone does.

#![verifier::loop_isolation(false)]

use vstd::prelude::*;

use crate::text;
use crate::text::CharSet;

verus! {

pub open spec fn is_separator(c: char) -> bool {
    c == '\\' || c == '/'
}

/// With what a path begins.
#[derive(Clone, Copy, Debug, PartialEq, Eq, Structural)]
pub enum PrefixKind {
    Nothing,
    /// A drive, such as `C:`.
    Drive,
    /// A server and its share.
    Share,
    /// A device.
    Device,
    /// A verbatim name.
    Verbatim,
    /// A verbatim drive.
    VerbatimDrive,
    /// A verbatim server and its share.
    VerbatimShare,
}

/// Whether a text begins with a drive.
pub open spec fn has_drive(s: Seq<char>) -> bool {
    s.len() >= 2 && text::is_ascii_letter(s[0]) && s[1] == ':'
}

/// Whether a path is taken as it is written.
pub open spec fn is_verbatim(s: Seq<char>) -> bool {
    text::has_prefix(s, seq!['\\', '\\', '?', '\\'])
}

/// The characters that separate names.
pub open spec fn separators(verbatim: bool) -> CharSet {
    if verbatim {
        CharSet::One('\\')
    } else {
        CharSet::Two('\\', '/')
    }
}

/// The first position from `from` on that holds a separator, or the length.
pub open spec fn next_separator(s: Seq<char>, from: int, verbatim: bool) -> int
    decreases s.len() - from,
{
    if from >= s.len() || separators(verbatim).holds(s[from]) {
        from
    } else {
        next_separator(s, from + 1, verbatim)
    }
}

/// Whether a text begins with a server and a share, neither of them empty.
pub open spec fn has_share(s: Seq<char>) -> bool {
    let server = next_separator(s, 2, false);
    &&& s.len() > 2 && is_separator(s[0]) && is_separator(s[1])
    &&& 2 < server < s.len()
    &&& server + 1 < next_separator(s, server + 1, false)
}

/// With what a path begins.
pub open spec fn prefix_kind(s: Seq<char>) -> PrefixKind {
    if is_verbatim(s) {
        if s.len() >= 8 && s[4] == 'U' && s[5] == 'N' && s[6] == 'C' && is_separator(s[7]) {
            PrefixKind::VerbatimShare
        } else if has_drive(s.skip(4)) && (s.len() == 6 || is_separator(s[6])) {
            PrefixKind::VerbatimDrive
        } else {
            PrefixKind::Verbatim
        }
    } else if s.len() >= 4 && is_separator(s[0]) && is_separator(s[1]) && s[2] == '.'
        && is_separator(s[3]) {
        PrefixKind::Device
    } else if has_share(s) {
        PrefixKind::Share
    } else if has_drive(s) {
        PrefixKind::Drive
    } else {
        PrefixKind::Nothing
    }
}

/// How many characters the prefix of a path has.
pub open spec fn prefix_len(s: Seq<char>) -> int {
    match prefix_kind(s) {
        PrefixKind::Nothing => 0,
        PrefixKind::Drive => 2,
        PrefixKind::Share => next_separator(s, next_separator(s, 2, false) + 1, false),
        PrefixKind::Device => next_separator(s, 4, false),
        PrefixKind::Verbatim => next_separator(s, 4, true),
        PrefixKind::VerbatimDrive => 6,
        PrefixKind::VerbatimShare => {
            let server = next_separator(s, 8, true);
            if server < s.len() && server + 1 < next_separator(s, server + 1, true) {
                next_separator(s, server + 1, true)
            } else {
                server
            }
        },
    }
}

/// The prefix of a path as it is compared: drives without regard to case,
/// shares and devices without regard to the kind of their slashes. A share is
/// written with slashes, so that it is told from a verbatim name.
pub open spec fn prefix_key(s: Seq<char>) -> Seq<char> {
    let prefix = s.take(prefix_len(s));
    match prefix_kind(s) {
        PrefixKind::Nothing => seq![],
        PrefixKind::Drive | PrefixKind::VerbatimDrive => text::ascii_uppercase(prefix),
        PrefixKind::Share => text::replaced(prefix, '\\', '/'),
        PrefixKind::Device => text::replaced(prefix, '/', '\\'),
        PrefixKind::Verbatim => prefix,
        PrefixKind::VerbatimShare => seq!['\\', '\\', '?', '\\', 'U', 'N', 'C', '\\']
            + prefix.skip(8),
    }
}

/// Whether a separator stands behind the prefix.
pub open spec fn has_separator_at_root(s: Seq<char>) -> bool {
    0 <= prefix_len(s) < s.len() && is_separator(s[prefix_len(s)])
}

/// Whether names are counted from a root. All prefixes but drives imply one.
pub open spec fn has_root(s: Seq<char>) -> bool {
    has_separator_at_root(s) || !(prefix_kind(s) is Nothing || prefix_kind(s) is Drive)
}

/// Whether the root is a component of its own. That of a verbatim prefix is
/// one only where it is written.
pub open spec fn shows_root(s: Seq<char>) -> bool {
    has_separator_at_root(s) || has_root(s) && !is_verbatim(s)
}

/// Whether a path begins with a lone dot, but for its prefix.
pub open spec fn begins_with_dot(s: Seq<char>) -> bool {
    let at = prefix_len(s);
    !has_root(s) && 0 <= at < s.len() && s[at] == '.' && (at + 1 == s.len() || is_separator(
        s[at + 1],
    ))
}

/// Where the names of a path begin.
pub open spec fn body_start(s: Seq<char>) -> int {
    prefix_len(s) + if has_separator_at_root(s) || begins_with_dot(s) {
        1int
    } else {
        0
    }
}

/// The part of a path that holds its names.
pub open spec fn body(s: Seq<char>) -> Seq<char> {
    s.skip(body_start(s))
}

/// Whether a part between separators is no name: it is empty or, but for a
/// verbatim path, a dot.
pub open spec fn is_blank(part: Seq<char>, verbatim: bool) -> bool {
    part.len() == 0 || !verbatim && part == seq!['.']
}

/// The parts that are names.
pub open spec fn kept_parts(parts: Seq<Seq<char>>, verbatim: bool) -> Seq<Seq<char>>
    decreases parts.len(),
{
    if parts.len() == 0 {
        parts
    } else if is_blank(parts.last(), verbatim) {
        kept_parts(parts.drop_last(), verbatim)
    } else {
        kept_parts(parts.drop_last(), verbatim).push(parts.last())
    }
}

/// The names in a text, in their order.
pub open spec fn names(s: Seq<char>, verbatim: bool) -> Seq<Seq<char>> {
    kept_parts(text::pieces(s, separators(verbatim)), verbatim)
}

/// The names of a path below its root.
pub open spec fn names_below_root(s: Seq<char>) -> Seq<Seq<char>> {
    names(body(s), is_verbatim(s))
}

/// Whether a path that has no prefix begins with a lone dot. That dot is a
/// component; every other dot is left out.
pub open spec fn shows_dot(s: Seq<char>) -> bool {
    prefix_kind(s) is Nothing && begins_with_dot(s)
}

/// The components of a path before its names, with the prefix as given.
pub open spec fn head_with(s: Seq<char>, prefix: Seq<char>) -> Seq<Seq<char>> {
    let first = if prefix_kind(s) is Nothing {
        seq![]
    } else {
        seq![prefix]
    };
    if shows_root(s) {
        first.push(seq!['\\'])
    } else if shows_dot(s) {
        first.push(seq!['.'])
    } else {
        first
    }
}

/// The components of a path before its names.
pub open spec fn head(s: Seq<char>) -> Seq<Seq<char>> {
    head_with(s, prefix_key(s))
}

/// The components of a path. Two paths with the same components are the same
/// path.
pub open spec fn components(s: Seq<char>) -> Seq<Seq<char>> {
    head(s) + names_below_root(s)
}

/// The components of a path with the prefix as it is written.
pub open spec fn written_components(s: Seq<char>) -> Seq<Seq<char>> {
    head_with(s, s.take(prefix_len(s))) + names_below_root(s)
}

/// Whether a path is another one or lies below it, component by component.
pub open spec fn lies_in(path: Seq<char>, base: Seq<char>) -> bool {
    components(base).is_prefix_of(components(path))
}

/// A text without separators and lone dots at its end.
pub open spec fn trimmed_back(s: Seq<char>, verbatim: bool) -> Seq<char>
    decreases s.len(),
{
    let set = separators(verbatim);
    if s.len() == 0 {
        s
    } else if set.holds(s.last()) || !verbatim && s.last() == '.' && (s.len() == 1 || set.holds(
        s[s.len() - 2],
    )) {
        trimmed_back(s.drop_last(), verbatim)
    } else {
        s
    }
}

/// A text without separators and lone dots at its beginning.
pub open spec fn trimmed_front(s: Seq<char>, verbatim: bool) -> Seq<char>
    decreases s.len(),
{
    let set = separators(verbatim);
    if s.len() == 0 {
        s
    } else if set.holds(s[0]) || !verbatim && s[0] == '.' && (s.len() == 1 || set.holds(s[1])) {
        trimmed_front(s.drop_first(), verbatim)
    } else {
        s
    }
}

/// A text without its last part; the separator before that part stays.
pub open spec fn without_last_part(s: Seq<char>, verbatim: bool) -> Seq<char>
    decreases s.len(),
{
    if s.len() == 0 || separators(verbatim).holds(s.last()) {
        s
    } else {
        without_last_part(s.drop_last(), verbatim)
    }
}

/// A text without its first part; the separator behind that part stays.
pub open spec fn without_first_part(s: Seq<char>, verbatim: bool) -> Seq<char>
    decreases s.len(),
{
    if s.len() == 0 || separators(verbatim).holds(s[0]) {
        s
    } else {
        without_first_part(s.drop_first(), verbatim)
    }
}

/// What stands behind the first `n` names of a text.
pub open spec fn behind_names(s: Seq<char>, n: int, verbatim: bool) -> Seq<char>
    decreases n,
{
    let at_name = trimmed_front(s, verbatim);
    if n <= 0 {
        at_name
    } else {
        behind_names(without_first_part(at_name, verbatim), n - 1, verbatim)
    }
}

/// What a path is beyond the path that it lies in, as it is written.
pub open spec fn rest_below(path: Seq<char>, base: Seq<char>) -> Seq<char> {
    let v = is_verbatim(path);
    let n = components(base).len() as int;
    let first = head(path).len() as int;
    if n > 0 && n >= first {
        trimmed_back(behind_names(body(path), n - first, v), v)
    } else {
        let from = if n > 0 {
            prefix_len(path)
        } else {
            0
        };
        path.subrange(from, body_start(path)) + trimmed_back(body(path), v)
    }
}

/// The directory in which the last component of a path stands, as it is
/// written. A root stands in none.
pub open spec fn parent(s: Seq<char>) -> Option<Seq<char>> {
    let v = is_verbatim(s);
    if names_below_root(s).len() > 0 {
        Some(
            s.take(body_start(s)) + trimmed_back(
                without_last_part(trimmed_back(body(s), v), v),
                v,
            ),
        )
    } else if shows_dot(s) {
        Some(seq![])
    } else {
        None
    }
}

/// What comes of a list of components when one more is taken from it: a root
/// leaves the prefix alone, `..` takes a name away.
pub open spec fn stepped(parts: Seq<Seq<char>>, part: Seq<char>) -> Seq<Seq<char>> {
    if part == seq!['\\'] {
        parts.take(1).push(part)
    } else if part == seq!['.'] {
        parts
    } else if part == seq!['.', '.'] {
        if parts.len() > 1 && is_plain_name(parts.last()) {
            parts.drop_last()
        } else {
            parts
        }
    } else {
        parts.push(part)
    }
}

/// Whether a component is a name, and neither `.` nor `..`.
pub open spec fn is_plain_name(part: Seq<char>) -> bool {
    part != seq!['\\'] && part != seq!['.'] && part != seq!['.', '.']
}

/// What comes of a list of components when others are taken from it in turn.
pub open spec fn all_stepped(parts: Seq<Seq<char>>, steps: Seq<Seq<char>>) -> Seq<Seq<char>>
    decreases steps.len(),
{
    if steps.len() == 0 {
        parts
    } else {
        stepped(all_stepped(parts, steps.drop_last()), steps.last())
    }
}

/// Components, the first of which is a prefix, as a path.
pub open spec fn put_together(parts: Seq<Seq<char>>) -> Seq<char>
    decreases parts.len(),
{
    if parts.len() == 0 {
        seq![]
    } else if parts.len() == 1 {
        parts[0]
    } else {
        let before = parts.drop_last();
        put_together(before) + if parts.last() == seq!['\\'] || before.len() > 1 && before.last()
            == seq!['\\'] {
            parts.last()
        } else {
            seq!['\\'] + parts.last()
        }
    }
}

/// Whether what is put behind a path has to be parted from it.
pub open spec fn needs_separator(base: Seq<char>) -> bool {
    base.len() > 0 && !is_separator(base.last()) && !(prefix_kind(base) is Drive && base.len() == 2)
}

/// A path taken from another one. One with a prefix stands for itself; one
/// that begins with a separator keeps the prefix. What is taken from a verbatim
/// path is written without `.` and `..`.
pub open spec fn joined(base: Seq<char>, path: Seq<char>) -> Seq<char> {
    if !(prefix_kind(path) is Nothing) {
        path
    } else if is_verbatim(base) && path.len() > 0 {
        put_together(all_stepped(written_components(base), components(path)))
    } else if has_separator_at_root(path) {
        base.take(prefix_len(base)) + path
    } else if needs_separator(base) {
        base + seq!['\\'] + path
    } else {
        base + path
    }
}

/// The last name of a path. A root has none, and neither `.` nor `..` is one.
pub open spec fn last_name(s: Seq<char>) -> Option<Seq<char>> {
    let own = names_below_root(s);
    if own.len() > 0 && own.last() != seq!['.'] && own.last() != seq!['.', '.'] {
        Some(own.last())
    } else {
        None
    }
}

/// The last position of a dot.
pub open spec fn last_dot(s: Seq<char>) -> Option<int>
    decreases s.len(),
{
    if s.len() == 0 {
        None
    } else if s.last() == '.' {
        Some(s.len() - 1)
    } else {
        last_dot(s.drop_last())
    }
}

/// The extension of a name: what follows its last dot, unless nothing stands
/// before that dot.
pub open spec fn extension(name: Seq<char>) -> Option<Seq<char>> {
    match last_dot(name) {
        Some(i) => if i > 0 && name != ".."@ {
            Some(name.skip(i + 1))
        } else {
            None
        },
        None => None,
    }
}

/// A name without its extension.
pub open spec fn stem(name: Seq<char>) -> Seq<char> {
    match last_dot(name) {
        Some(i) => if i > 0 && name != ".."@ {
            name.take(i)
        } else {
            name
        },
        None => name,
    }
}

/// The last name of a path without its extension; empty where it has none.
pub open spec fn last_stem(s: Seq<char>) -> Seq<char> {
    match last_name(s) {
        Some(name) => stem(name),
        None => seq![],
    }
}

/// The extension of a path's last name.
pub open spec fn last_extension(s: Seq<char>) -> Option<Seq<char>> {
    match last_name(s) {
        Some(name) => extension(name),
        None => None,
    }
}

/// A path without the prefix of extended paths.
pub open spec fn plain(s: Seq<char>) -> Seq<char> {
    if text::has_prefix(s, "\\\\?\\"@) || text::has_prefix(s, "\\??\\"@) {
        s.skip(4)
    } else {
        s
    }
}

fn separates(c: char) -> (r: bool)
    ensures
        r == is_separator(c),
{
    c == '\\' || c == '/'
}

fn is_letter(c: char) -> (r: bool)
    ensures
        r == text::is_ascii_letter(c),
{
    ('a' <= c && c <= 'z') || ('A' <= c && c <= 'Z')
}

fn separators_of(verbatim: bool) -> (r: CharSet)
    ensures
        r == separators(verbatim),
{
    if verbatim {
        CharSet::One('\\')
    } else {
        CharSet::Two('\\', '/')
    }
}

fn find_separator(v: &Vec<char>, from: usize, verbatim: bool) -> (r: usize)
    requires
        from <= v@.len(),
    ensures
        r == next_separator(v@, from as int, verbatim),
        from <= r <= v@.len(),
{
    let set = separators_of(verbatim);
    let mut i: usize = from;
    while i < v.len() && !set.has_char(v[i])
        invariant
            from <= i <= v@.len(),
            set == separators(verbatim),
            next_separator(v@, from as int, verbatim) == next_separator(v@, i as int, verbatim),
        decreases v@.len() - i,
    {
        i = i + 1;
    }
    i
}

/// Separators are found at or behind the position from which they are sought.
proof fn lemma_next_separator_bounds(s: Seq<char>, from: int, verbatim: bool)
    requires
        0 <= from <= s.len(),
    ensures
        from <= next_separator(s, from, verbatim) <= s.len(),
    decreases s.len() - from,
{
    if from < s.len() && !separators(verbatim).holds(s[from]) {
        lemma_next_separator_bounds(s, from + 1, verbatim);
    }
}

fn reads_verbatim(v: &Vec<char>) -> (r: bool)
    ensures
        r == is_verbatim(v@),
{
    let r = v.len() >= 4 && v[0] == '\\' && v[1] == '\\' && v[2] == '?' && v[3] == '\\';
    proof {
        lemma_verbatim_by_characters(v@);
    }
    r
}

proof fn lemma_verbatim_by_characters(s: Seq<char>)
    ensures
        is_verbatim(s) <==> s.len() >= 4 && s[0] == '\\' && s[1] == '\\' && s[2] == '?' && s[3]
            == '\\',
{
    let mark = seq!['\\', '\\', '?', '\\'];
    if is_verbatim(s) {
        assert(s.subrange(0, 4)[0] == mark[0]);
        assert(s.subrange(0, 4)[1] == mark[1]);
        assert(s.subrange(0, 4)[2] == mark[2]);
        assert(s.subrange(0, 4)[3] == mark[3]);
    } else if s.len() >= 4 && s[0] == '\\' && s[1] == '\\' && s[2] == '?' && s[3] == '\\' {
        assert(s.subrange(0, 4) =~= mark);
    }
}

fn begins_with_drive(v: &Vec<char>, at: usize) -> (r: bool)
    requires
        at <= v@.len(),
    ensures
        r == has_drive(v@.skip(at as int)),
{
    v.len() - at >= 2 && is_letter(v[at]) && v[at + 1] == ':'
}

/// What stands before the names of a path.
struct Start {
    kind: PrefixKind,
    /// How many characters the prefix has.
    prefix: usize,
    verbatim: bool,
    /// Whether a separator stands behind the prefix.
    separated: bool,
    /// Whether a lone dot stands there.
    dotted: bool,
}

impl Start {
    spec fn is_of(self, s: Seq<char>) -> bool {
        &&& self.kind == prefix_kind(s)
        &&& self.prefix == prefix_len(s)
        &&& self.prefix <= s.len()
        &&& self.verbatim == is_verbatim(s)
        &&& self.separated == has_separator_at_root(s)
        &&& self.dotted == begins_with_dot(s)
    }

    /// Where the names of the path begin.
    fn body(&self, v: &Vec<char>) -> (r: usize)
        requires
            self.is_of(v@),
        ensures
            r == body_start(v@),
            r <= v@.len(),
    {
        let n: usize = v.len();
        if (self.separated || self.dotted) && self.prefix < n {
            self.prefix + 1
        } else {
            self.prefix
        }
    }

    fn shows_root(&self) -> (r: bool)
        ensures
            forall|s: Seq<char>| #[trigger] self.is_of(s) ==> r == shows_root(s),
    {
        self.separated || (!self.verbatim && !matches!(
            self.kind,
            PrefixKind::Nothing | PrefixKind::Drive,
        ))
    }
}

fn start_of(v: &Vec<char>) -> (r: Start)
    ensures
        r.is_of(v@),
{
    let n: usize = v.len();
    let verbatim = reads_verbatim(v);
    let (kind, prefix): (PrefixKind, usize) = if verbatim {
        if n >= 8 && v[4] == 'U' && v[5] == 'N' && v[6] == 'C' && separates(v[7]) {
            let server: usize = find_separator(v, 8, true);
            if server < n {
                let share: usize = find_separator(v, server + 1, true);
                if server + 1 < share {
                    (PrefixKind::VerbatimShare, share)
                } else {
                    (PrefixKind::VerbatimShare, server)
                }
            } else {
                (PrefixKind::VerbatimShare, server)
            }
        } else if begins_with_drive(v, 4) && (n == 6 || separates(v[6])) {
            (PrefixKind::VerbatimDrive, 6)
        } else {
            (PrefixKind::Verbatim, find_separator(v, 4, true))
        }
    } else if n >= 4 && separates(v[0]) && separates(v[1]) && v[2] == '.' && separates(v[3]) {
        (PrefixKind::Device, find_separator(v, 4, false))
    } else if n > 2 && separates(v[0]) && separates(v[1]) {
        let server: usize = find_separator(v, 2, false);
        if 2 < server && server < n {
            let share: usize = find_separator(v, server + 1, false);
            if server + 1 < share {
                (PrefixKind::Share, share)
            } else {
                (PrefixKind::Nothing, 0)
            }
        } else {
            (PrefixKind::Nothing, 0)
        }
    } else {
        assert(v@.skip(0) =~= v@);
        if begins_with_drive(v, 0) {
            (PrefixKind::Drive, 2)
        } else {
            (PrefixKind::Nothing, 0)
        }
    };
    let separated = prefix < n && separates(v[prefix]);
    let rooted = separated || !matches!(kind, PrefixKind::Nothing | PrefixKind::Drive);
    let dotted = !rooted && prefix < n && v[prefix] == '.' && (prefix + 1 == n || separates(
        v[prefix + 1],
    ));
    Start { kind, prefix, verbatim, separated, dotted }
}

/// The names in a text, in their order.
fn names_of(s: &str, verbatim: bool) -> (r: Vec<String>)
    ensures
        text::texts(r@) == names(s@, verbatim),
{
    let parts = text::split(s, separators_of(verbatim));
    let ghost all = text::texts(parts@);
    let mut r: Vec<String> = Vec::new();
    let mut i: usize = 0;
    assert(all.take(0) =~= seq![]);
    assert(text::texts(r@) =~= seq![]);
    proof {
        reveal_strlit(".");
        assert("."@ =~= seq!['.']);
    }
    while i < parts.len()
        invariant
            i <= parts@.len(),
            all == text::texts(parts@),
            "."@ == seq!['.'],
            text::texts(r@) == kept_parts(all.take(i as int), verbatim),
        decreases parts@.len() - i,
    {
        assert(all.take(i + 1).drop_last() =~= all.take(i as int));
        let part = parts[i].as_str();
        if !part.is_empty() && (verbatim || !text::same(part, ".")) {
            let kept = part.to_owned();
            proof {
                text::lemma_texts_push(r@, kept);
            }
            r.push(kept);
        }
        i = i + 1;
    }
    assert(all.take(i as int) =~= all);
    r
}

fn body_of(v: &Vec<char>, start: &Start) -> (r: String)
    requires
        start.is_of(v@),
    ensures
        r@ == body(v@),
{
    let from: usize = start.body(v);
    let r = text::string_of(v, from, v.len());
    assert(r@ =~= body(v@));
    r
}

fn prefix_text(v: &Vec<char>, start: &Start) -> (r: String)
    requires
        start.is_of(v@),
    ensures
        r@ == v@.take(prefix_len(v@)),
{
    let r = text::string_of(v, 0, start.prefix);
    assert(r@ =~= v@.take(prefix_len(v@)));
    r
}

fn prefix_key_of(v: &Vec<char>, start: &Start) -> (r: String)
    requires
        start.is_of(v@),
    ensures
        r@ == prefix_key(v@),
{
    let prefix = prefix_text(v, start);
    match start.kind {
        PrefixKind::Nothing => {
            let r = String::new();
            assert(r@ =~= Seq::<char>::empty());
            r
        },
        PrefixKind::Drive | PrefixKind::VerbatimDrive => text::to_ascii_uppercase(
            prefix.as_str(),
        ),
        PrefixKind::Share => text::replace_char(prefix.as_str(), '\\', '/'),
        PrefixKind::Device => text::replace_char(prefix.as_str(), '/', '\\'),
        PrefixKind::Verbatim => prefix,
        PrefixKind::VerbatimShare => {
            proof {
                lemma_next_separator_bounds(v@, 8, true);
                let server = next_separator(v@, 8, true);
                if server < v@.len() {
                    lemma_next_separator_bounds(v@, server + 1, true);
                }
                reveal_strlit("\\\\?\\UNC\\");
            }
            let mut r = "\\\\?\\UNC\\".to_owned();
            assert(r@ =~= seq!['\\', '\\', '?', '\\', 'U', 'N', 'C', '\\']);
            let rest = text::string_of(v, 8, start.prefix);
            assert(rest@ =~= v@.take(prefix_len(v@)).skip(8));
            r.push_str(rest.as_str());
            r
        },
    }
}

/// The components before the names, with the prefix as given.
fn head_of(v: &Vec<char>, start: &Start, prefix: String) -> (r: Vec<String>)
    requires
        start.is_of(v@),
    ensures
        text::texts(r@) == head_with(v@, prefix@),
{
    let mut r: Vec<String> = Vec::new();
    if !matches!(start.kind, PrefixKind::Nothing) {
        r.push(prefix);
    }
    let ghost first = text::texts(r@);
    assert(first =~= if prefix_kind(v@) is Nothing {
        seq![]
    } else {
        seq![prefix@]
    });
    if start.shows_root() {
        let mut part = String::new();
        part.push('\\');
        assert(part@ =~= seq!['\\']);
        proof {
            text::lemma_texts_push(r@, part);
        }
        r.push(part);
    } else if start.dotted && matches!(start.kind, PrefixKind::Nothing) {
        let mut part = String::new();
        part.push('.');
        assert(part@ =~= seq!['.']);
        proof {
            text::lemma_texts_push(r@, part);
        }
        r.push(part);
    }
    r
}

fn with_names(first: Vec<String>, more: Vec<String>) -> (r: Vec<String>)
    ensures
        text::texts(r@) == text::texts(first@) + text::texts(more@),
{
    let mut r = first;
    let mut more = more;
    let ghost added = more@;
    r.append(&mut more);
    assert(text::texts(r@) =~= text::texts(first@) + text::texts(added));
    r
}

/// With what a path begins.
pub fn prefix_kind_of(path: &str) -> (r: PrefixKind)
    ensures
        r == prefix_kind(path@),
{
    start_of(&text::chars_of(path)).kind
}

/// The components of a path.
pub fn components_of(path: &str) -> (r: Vec<String>)
    ensures
        text::texts(r@) == components(path@),
{
    let v = text::chars_of(path);
    let start = start_of(&v);
    let key = prefix_key_of(&v, &start);
    let first = head_of(&v, &start, key);
    with_names(first, names_of(body_of(&v, &start).as_str(), start.verbatim))
}

/// The components of a path with the prefix as it is written.
pub fn written_components_of(path: &str) -> (r: Vec<String>)
    ensures
        text::texts(r@) == written_components(path@),
{
    let v = text::chars_of(path);
    let start = start_of(&v);
    let prefix = prefix_text(&v, &start);
    let first = head_of(&v, &start, prefix);
    with_names(first, names_of(body_of(&v, &start).as_str(), start.verbatim))
}

/// The names of a path below its root.
pub fn names_below_root_of(path: &str) -> (r: Vec<String>)
    ensures
        text::texts(r@) == names_below_root(path@),
{
    let v = text::chars_of(path);
    let start = start_of(&v);
    names_of(body_of(&v, &start).as_str(), start.verbatim)
}

/// Whether a path is another one or lies below it.
pub fn is_in(path: &str, base: &str) -> (r: bool)
    ensures
        r == lies_in(path@, base@),
{
    let all = components_of(path);
    let first = components_of(base);
    assert(text::texts(all@).len() == all@.len());
    assert(text::texts(first@).len() == first@.len());
    if first.len() > all.len() {
        return false;
    }
    let mut i: usize = 0;
    while i < first.len()
        invariant
            i <= first@.len() <= all@.len(),
            forall|j: int| 0 <= j < i ==> #[trigger] text::texts(all@)[j] == text::texts(first@)[j],
        decreases first@.len() - i,
    {
        if !text::same(all[i].as_str(), first[i].as_str()) {
            assert(text::texts(all@)[i as int] != text::texts(first@)[i as int]);
            return false;
        }
        i = i + 1;
    }
    assert(components(path@).take(i as int) =~= components(base@));
    true
}

/// Where a text ends without separators and lone dots at its end.
fn end_without_blanks(v: &Vec<char>, verbatim: bool) -> (r: usize)
    ensures
        r <= v@.len(),
        v@.take(r as int) == trimmed_back(v@, verbatim),
{
    let set = separators_of(verbatim);
    let mut n: usize = v.len();
    assert(v@.take(n as int) =~= v@);
    while n > 0 && (set.has_char(v[n - 1]) || (!verbatim && v[n - 1] == '.' && (n == 1
        || set.has_char(v[n - 2]))))
        invariant
            n <= v@.len(),
            set == separators(verbatim),
            trimmed_back(v@, verbatim) == trimmed_back(v@.take(n as int), verbatim),
        decreases n,
    {
        assert(v@.take(n as int).drop_last() =~= v@.take(n - 1));
        n = n - 1;
    }
    n
}

/// Where a text begins behind separators and lone dots.
fn begin_behind_blanks(v: &Vec<char>, from: usize, verbatim: bool) -> (r: usize)
    requires
        from <= v@.len(),
    ensures
        from <= r <= v@.len(),
        v@.skip(r as int) == trimmed_front(v@.skip(from as int), verbatim),
{
    let set = separators_of(verbatim);
    let mut i: usize = from;
    let n: usize = v.len();
    while i < n && (set.has_char(v[i]) || (!verbatim && v[i] == '.' && (i + 1 == n || set.has_char(
        v[i + 1],
    ))))
        invariant
            from <= i <= n,
            n == v@.len(),
            set == separators(verbatim),
            trimmed_front(v@.skip(from as int), verbatim) == trimmed_front(
                v@.skip(i as int),
                verbatim,
            ),
        decreases n - i,
    {
        assert(v@.skip(i as int).drop_first() =~= v@.skip(i + 1));
        i = i + 1;
    }
    i
}

/// Where a text goes on behind its first part.
fn begin_behind_part(v: &Vec<char>, from: usize, verbatim: bool) -> (r: usize)
    requires
        from <= v@.len(),
    ensures
        from <= r <= v@.len(),
        v@.skip(r as int) == without_first_part(v@.skip(from as int), verbatim),
{
    let set = separators_of(verbatim);
    let mut i: usize = from;
    while i < v.len() && !set.has_char(v[i])
        invariant
            from <= i <= v@.len(),
            set == separators(verbatim),
            without_first_part(v@.skip(from as int), verbatim) == without_first_part(
                v@.skip(i as int),
                verbatim,
            ),
        decreases v@.len() - i,
    {
        assert(v@.skip(i as int).drop_first() =~= v@.skip(i + 1));
        i = i + 1;
    }
    i
}

fn trim_back(s: &str, verbatim: bool) -> (r: String)
    ensures
        r@ == trimmed_back(s@, verbatim),
{
    let v = text::chars_of(s);
    let n: usize = end_without_blanks(&v, verbatim);
    let r = text::string_of(&v, 0, n);
    assert(r@ =~= v@.take(n as int));
    r
}

fn skip_names(s: &str, n: usize, verbatim: bool) -> (r: String)
    ensures
        r@ == behind_names(s@, n as int, verbatim),
{
    let v = text::chars_of(s);
    let mut at: usize = begin_behind_blanks(&v, 0, verbatim);
    let mut left: usize = n;
    assert(v@.skip(0) =~= v@);
    let ghost mut rest = v@;
    while left > 0
        invariant
            at <= v@.len(),
            v@.skip(at as int) == trimmed_front(rest, verbatim),
            behind_names(v@, n as int, verbatim) == behind_names(rest, left as int, verbatim),
        decreases left,
    {
        let next: usize = begin_behind_part(&v, at, verbatim);
        proof {
            rest = v@.skip(next as int);
        }
        at = begin_behind_blanks(&v, next, verbatim);
        left = left - 1;
    }
    let r = text::string_of(&v, at, v.len());
    assert(r@ =~= v@.skip(at as int));
    r
}

/// What a path is beyond the path that it lies in, as it is written; `None`
/// where it does not lie there.
pub fn strip(path: &str, base: &str) -> (r: Option<String>)
    ensures
        text::view_of(r) == if lies_in(path@, base@) {
            Some(rest_below(path@, base@))
        } else {
            None
        },
{
    if !is_in(path, base) {
        return None;
    }
    let first = components_of(base);
    assert(text::texts(first@).len() == first@.len());
    let v = text::chars_of(path);
    let start = start_of(&v);
    let key = prefix_key_of(&v, &start);
    let head = head_of(&v, &start, key);
    assert(text::texts(head@).len() == head@.len());
    let rest = body_of(&v, &start);
    if first.len() > 0 && first.len() >= head.len() {
        let behind = skip_names(rest.as_str(), first.len() - head.len(), start.verbatim);
        return Some(trim_back(behind.as_str(), start.verbatim));
    }
    let from: usize = if first.len() > 0 {
        start.prefix
    } else {
        0
    };
    let mut r = text::string_of(&v, from, start.body(&v));
    let tail = trim_back(rest.as_str(), start.verbatim);
    r.push_str(tail.as_str());
    assert(r@ =~= rest_below(path@, base@));
    Some(r)
}

fn cut_last_part(s: &str, verbatim: bool) -> (r: String)
    ensures
        r@ == without_last_part(s@, verbatim),
{
    let v = text::chars_of(s);
    let set = separators_of(verbatim);
    let mut n: usize = v.len();
    assert(v@.take(n as int) =~= v@);
    while n > 0 && !set.has_char(v[n - 1])
        invariant
            v@ == s@,
            n <= v@.len(),
            set == separators(verbatim),
            without_last_part(s@, verbatim) == without_last_part(s@.take(n as int), verbatim),
        decreases n,
    {
        assert(s@.take(n as int).drop_last() =~= s@.take(n - 1));
        n = n - 1;
    }
    let r = text::string_of(&v, 0, n);
    assert(r@ =~= s@.take(n as int));
    r
}

/// The directory in which the last component of a path stands.
pub fn parent_of(path: &str) -> (r: Option<String>)
    ensures
        text::view_of(r) == parent(path@),
{
    let v = text::chars_of(path);
    let start = start_of(&v);
    let rest = body_of(&v, &start);
    let own = names_of(rest.as_str(), start.verbatim);
    assert(text::texts(own@).len() == own@.len());
    if own.len() > 0 {
        let bare = trim_back(rest.as_str(), start.verbatim);
        let cut = cut_last_part(bare.as_str(), start.verbatim);
        let tail = trim_back(cut.as_str(), start.verbatim);
        let mut r = text::string_of(&v, 0, start.body(&v));
        assert(r@ =~= path@.take(body_start(path@)));
        r.push_str(tail.as_str());
        return Some(r);
    }
    if start.dotted && matches!(start.kind, PrefixKind::Nothing) {
        let r = String::new();
        assert(r@ =~= Seq::<char>::empty());
        return Some(r);
    }
    None
}

/// Takes one more component from a list of them.
fn step(parts: Vec<String>, part: String) -> (r: Vec<String>)
    requires
        parts@.len() > 0,
    ensures
        text::texts(r@) == stepped(text::texts(parts@), part@),
        r@.len() > 0,
{
    let ghost before = text::texts(parts@);
    let mut parts = parts;
    proof {
        reveal_strlit("\\");
        reveal_strlit(".");
        reveal_strlit("..");
        assert("\\"@ =~= seq!['\\']);
        assert("."@ =~= seq!['.']);
        assert(".."@ =~= seq!['.', '.']);
        assert(seq!['.'].len() == 1 && seq!['.', '.'].len() == 2 && seq!['\\'].len() == 1);
        assert(seq!['.'][0] != seq!['\\'][0]);
    }
    if text::same(part.as_str(), "\\") {
        parts.truncate(1);
        assert(text::texts(parts@) =~= before.take(1));
        proof {
            text::lemma_texts_push(parts@, part);
        }
        parts.push(part);
    } else if text::same(part.as_str(), ".") {
    } else if text::same(part.as_str(), "..") {
        if parts.len() > 1 {
            let last = parts[parts.len() - 1].as_str();
            assert(before.last() == last@);
            let plain = !text::same(last, "\\") && !text::same(last, ".") && !text::same(
                last,
                "..",
            );
            if plain {
                parts.pop();
                assert(text::texts(parts@) =~= before.drop_last());
            }
        }
    } else {
        proof {
            text::lemma_texts_push(parts@, part);
        }
        parts.push(part);
    }
    parts
}

/// Writes components, the first of which is a prefix, as a path.
fn put_parts_together(parts: &Vec<String>) -> (r: String)
    requires
        parts@.len() > 0,
    ensures
        r@ == put_together(text::texts(parts@)),
{
    let ghost all = text::texts(parts@);
    let mut r = parts[0].as_str().to_owned();
    assert(all.take(1).len() == 1 && all.take(1)[0] == parts@[0]@);
    proof {
        reveal_strlit("\\");
        assert("\\"@ =~= seq!['\\']);
    }
    let mut i: usize = 1;
    while i < parts.len()
        invariant
            1 <= i <= parts@.len(),
            all == text::texts(parts@),
            "\\"@ == seq!['\\'],
            r@ == put_together(all.take(i as int)),
        decreases parts@.len() - i,
    {
        let ghost longer = all.take(i + 1);
        assert(longer.drop_last() =~= all.take(i as int));
        assert(longer.last() == parts@[i as int]@);
        assert(all.take(i as int).last() == parts@[i - 1]@);
        let part = parts[i].as_str();
        let close = text::same(part, "\\") || (i > 1 && text::same(parts[i - 1].as_str(), "\\"));
        if close {
            r.push_str(part);
        } else {
            let ghost before = r@;
            r.push_str("\\");
            r.push_str(part);
            assert(r@ =~= before + (seq!['\\'] + part@));
        }
        i = i + 1;
    }
    assert(all.take(i as int) =~= all);
    r
}

/// Takes a path from another one.
pub fn join(base: &str, path: &str) -> (r: String)
    ensures
        r@ == joined(base@, path@),
{
    let v = text::chars_of(path);
    let w = text::chars_of(base);
    let of_path = start_of(&v);
    let of_base = start_of(&w);
    if !matches!(of_path.kind, PrefixKind::Nothing) {
        return path.to_owned();
    }
    if of_base.verbatim && v.len() > 0 {
        let mut parts = written_components_of(base);
        assert(text::texts(parts@).len() == parts@.len());
        let ghost first = text::texts(parts@);
        let steps = components_of(path);
        let ghost all = text::texts(steps@);
        let mut i: usize = 0;
        assert(all.take(0) =~= seq![]);
        while i < steps.len()
            invariant
                i <= steps@.len(),
                parts@.len() > 0,
                all == text::texts(steps@),
                text::texts(parts@) == all_stepped(first, all.take(i as int)),
            decreases steps@.len() - i,
        {
            assert(all.take(i + 1).drop_last() =~= all.take(i as int));
            parts = step(parts, steps[i].as_str().to_owned());
            i = i + 1;
        }
        assert(all.take(i as int) =~= all);
        return put_parts_together(&parts);
    }
    if of_path.separated {
        let mut r = prefix_text(&w, &of_base);
        r.push_str(path);
        return r;
    }
    let mut r = base.to_owned();
    if w.len() > 0 && !separates(w[w.len() - 1]) && !(matches!(of_base.kind, PrefixKind::Drive)
        && w.len() == 2) {
        r.push('\\');
        assert(r@ =~= base@ + seq!['\\']);
    }
    r.push_str(path);
    r
}

/// The last name of a path.
pub fn last_name_of(path: &str) -> (r: Option<String>)
    ensures
        text::view_of(r) == last_name(path@),
{
    let own = names_below_root_of(path);
    assert(text::texts(own@).len() == own@.len());
    if own.len() == 0 {
        return None;
    }
    let name = own[own.len() - 1].as_str().to_owned();
    assert(text::texts(own@).last() == name@);
    proof {
        reveal_strlit(".");
        reveal_strlit("..");
        assert("."@ =~= seq!['.']);
        assert(".."@ =~= seq!['.', '.']);
    }
    if text::same(name.as_str(), ".") || text::same(name.as_str(), "..") {
        None
    } else {
        Some(name)
    }
}

/// The extension of a name.
pub fn extension_of(name: &str) -> (r: Option<String>)
    ensures
        text::view_of(r) == extension(name@),
{
    if text::same(name, "..") {
        return None;
    }
    let v = text::chars_of(name);
    let mut i: usize = v.len();
    assert(name@.take(i as int) =~= name@);
    while i > 0 && v[i - 1] != '.'
        invariant
            v@ == name@,
            i <= v@.len(),
            last_dot(name@) == last_dot(name@.take(i as int)),
        decreases i,
    {
        assert(name@.take(i as int).drop_last() =~= name@.take(i - 1));
        i = i - 1;
    }
    if i <= 1 {
        return None;
    }
    assert(last_dot(name@) == Some(i - 1));
    let r = text::string_of(&v, i, v.len());
    assert(r@ =~= name@.skip(i as int));
    Some(r)
}

/// A name without its extension.
pub fn stem_of(name: &str) -> (r: String)
    ensures
        r@ == stem(name@),
{
    if text::same(name, "..") {
        let r = name.to_owned();
        assert(r@ == stem(name@));
        return r;
    }
    let v = text::chars_of(name);
    let mut i: usize = v.len();
    assert(name@.take(i as int) =~= name@);
    while i > 0 && v[i - 1] != '.'
        invariant
            v@ == name@,
            i <= v@.len(),
            last_dot(name@) == last_dot(name@.take(i as int)),
        decreases i,
    {
        assert(name@.take(i as int).drop_last() =~= name@.take(i - 1));
        i = i - 1;
    }
    if i <= 1 {
        return name.to_owned();
    }
    assert(last_dot(name@) == Some(i - 1));
    let r = text::string_of(&v, 0, i - 1);
    assert(r@ =~= name@.take(i - 1));
    r
}

/// The last name of a path without its extension.
pub fn last_stem_of(path: &str) -> (r: String)
    ensures
        r@ == last_stem(path@),
{
    match last_name_of(path) {
        Some(name) => stem_of(name.as_str()),
        None => {
            let r = String::new();
            assert(r@ =~= Seq::<char>::empty());
            r
        },
    }
}

/// The extension of a path's last name.
pub fn last_extension_of(path: &str) -> (r: Option<String>)
    ensures
        text::view_of(r) == last_extension(path@),
{
    match last_name_of(path) {
        Some(name) => extension_of(name.as_str()),
        None => None,
    }
}

/// A path without the prefix of extended paths.
pub fn plain_of(path: &str) -> (r: String)
    ensures
        r@ == plain(path@),
{
    proof {
        reveal_strlit("\\\\?\\");
        reveal_strlit("\\??\\");
    }
    if text::starts_with(path, "\\\\?\\") || text::starts_with(path, "\\??\\") {
        let v = text::chars_of(path);
        let r = text::string_of(&v, 4, v.len());
        assert(r@ =~= path@.skip(4));
        r
    } else {
        path.to_owned()
    }
}

/// What is split off on either side of a separator.
proof fn lemma_pieces_behind_separator(a: Seq<char>, b: Seq<char>, set: CharSet)
    requires
        a.len() > 0,
        set.holds(a.last()),
    ensures
        text::pieces(a + b, set) == text::pieces(a, set).drop_last() + text::pieces(b, set),
    decreases b.len(),
{
    text::lemma_pieces_nonempty(b, set);
    if b.len() == 0 {
        assert(a + b =~= a);
        let before = text::pieces(a.drop_last(), set);
        assert(text::pieces(a, set) == before.push(Seq::empty()));
        assert(before.push(Seq::empty()).drop_last() =~= before);
        assert(text::pieces(a + b, set) =~= before + text::pieces(b, set));
    } else {
        lemma_pieces_behind_separator(a, b.drop_last(), set);
        text::lemma_pieces_nonempty(b.drop_last(), set);
        assert((a + b).drop_last() =~= a + b.drop_last());
        let first = text::pieces(a, set).drop_last();
        let rest = text::pieces(b.drop_last(), set);
        if set.holds(b.last()) {
            assert((first + rest).push(Seq::empty()) =~= first + rest.push(Seq::empty()));
        } else {
            assert((first + rest).last() == rest.last());
            assert((first + rest).drop_last().push(rest.last().push(b.last())) =~= first
                + rest.drop_last().push(rest.last().push(b.last())));
        }
    }
}

proof fn lemma_kept_parts_together(a: Seq<Seq<char>>, b: Seq<Seq<char>>, v: bool)
    ensures
        kept_parts(a + b, v) == kept_parts(a, v) + kept_parts(b, v),
    decreases b.len(),
{
    if b.len() == 0 {
        assert(a + b =~= a);
        assert(kept_parts(a, v) + kept_parts(b, v) =~= kept_parts(a, v));
    } else {
        lemma_kept_parts_together(a, b.drop_last(), v);
        assert((a + b).drop_last() =~= a + b.drop_last());
        assert((a + b).last() == b.last());
        assert(kept_parts(a + b, v) =~= kept_parts(a, v) + kept_parts(b, v));
    }
}

/// Of a list of one part the name is kept, if it is one.
proof fn lemma_kept_part(part: Seq<char>, v: bool)
    ensures
        kept_parts(seq![part], v) == if is_blank(part, v) {
            Seq::<Seq<char>>::empty()
        } else {
            seq![part]
        },
{
    let one = seq![part];
    assert(one.drop_last() =~= Seq::<Seq<char>>::empty());
    assert(kept_parts(one.drop_last(), v) =~= Seq::<Seq<char>>::empty());
    assert(kept_parts(one, v) =~= if is_blank(part, v) {
        Seq::<Seq<char>>::empty()
    } else {
        seq![part]
    });
}

/// A separator parts names.
proof fn lemma_names_behind_separator(a: Seq<char>, b: Seq<char>, v: bool)
    requires
        a.len() > 0,
        separators(v).holds(a.last()),
    ensures
        names(a + b, v) == names(a, v) + names(b, v),
{
    let set = separators(v);
    lemma_pieces_behind_separator(a, b, set);
    let before = text::pieces(a.drop_last(), set);
    assert(text::pieces(a, set) == before.push(Seq::empty()));
    assert(before.push(Seq::empty()).drop_last() =~= before);
    lemma_kept_parts_together(before, text::pieces(b, set), v);
}

/// A separator at the end adds no name.
proof fn lemma_names_before_separator(a: Seq<char>, c: char, v: bool)
    requires
        separators(v).holds(c),
    ensures
        names(a.push(c), v) == names(a, v),
{
    let set = separators(v);
    let s = a.push(c);
    assert(s.drop_last() =~= a);
    let before = text::pieces(a, set);
    assert(text::pieces(s, set) == before.push(Seq::empty()));
    assert(before.push(Seq::empty()).drop_last() =~= before);
}

proof fn lemma_pieces_of_name(s: Seq<char>, set: CharSet)
    requires
        forall|i: int| 0 <= i < s.len() ==> !set.holds(#[trigger] s[i]),
    ensures
        text::pieces(s, set) == seq![s],
    decreases s.len(),
{
    if s.len() == 0 {
        assert(s =~= Seq::empty());
    } else {
        assert forall|i: int| 0 <= i < s.drop_last().len() implies !set.holds(
            #[trigger] s.drop_last()[i],
        ) by {
            assert(s.drop_last()[i] == s[i]);
        }
        lemma_pieces_of_name(s.drop_last(), set);
        assert(s.drop_last().push(s.last()) =~= s);
        assert(text::pieces(s, set) =~= seq![s]);
    }
}

/// A text without separators holds one name, or none.
pub proof fn lemma_names_of_part(s: Seq<char>, v: bool)
    requires
        forall|i: int| 0 <= i < s.len() ==> !separators(v).holds(#[trigger] s[i]),
    ensures
        names(s, v) == if is_blank(s, v) {
            Seq::<Seq<char>>::empty()
        } else {
            seq![s]
        },
{
    lemma_pieces_of_name(s, separators(v));
    lemma_kept_part(s, v);
}

/// A part and a separator before other names.
proof fn lemma_names_behind_part(part: Seq<char>, c: char, b: Seq<char>, v: bool)
    requires
        forall|i: int| 0 <= i < part.len() ==> !separators(v).holds(#[trigger] part[i]),
        separators(v).holds(c),
    ensures
        names(part.push(c) + b, v) == names(part, v) + names(b, v),
{
    lemma_names_behind_separator(part.push(c), b, v);
    lemma_names_before_separator(part, c, v);
}

/// What is trimmed at the end are no names.
proof fn lemma_names_trimmed_back(s: Seq<char>, v: bool)
    ensures
        names(trimmed_back(s, v), v) == names(s, v),
        trimmed_back(s, v).is_prefix_of(s),
    decreases s.len(),
{
    let set = separators(v);
    if s.len() > 0 && trimmed_back(s, v) != s {
        let shorter = s.drop_last();
        assert(trimmed_back(s, v) == trimmed_back(shorter, v));
        lemma_names_trimmed_back(shorter, v);
        assert(shorter.push(s.last()) =~= s);
        if set.holds(s.last()) {
            lemma_names_before_separator(shorter, s.last(), v);
        } else {
            let dot = seq!['.'];
            assert forall|i: int| 0 <= i < dot.len() implies !set.holds(#[trigger] dot[i]) by {}
            lemma_names_of_part(dot, v);
            if s.len() == 1 {
                assert(s =~= dot);
                assert(shorter =~= Seq::<char>::empty());
                lemma_names_of_part(shorter, v);
            } else {
                assert(shorter.last() == s[s.len() - 2]);
                assert(s =~= shorter + dot);
                lemma_names_behind_separator(shorter, dot, v);
                assert(names(shorter, v) + Seq::<Seq<char>>::empty() =~= names(shorter, v));
            }
        }
    }
}

/// What is trimmed at the beginning are no names.
proof fn lemma_names_trimmed_front(s: Seq<char>, v: bool)
    ensures
        names(trimmed_front(s, v), v) == names(s, v),
        trimmed_front(s, v).len() > 0 ==> !separators(v).holds(trimmed_front(s, v)[0]),
    decreases s.len(),
{
    let set = separators(v);
    let none = Seq::<Seq<char>>::empty();
    if s.len() > 0 && (set.holds(s[0]) || !v && s[0] == '.' && (s.len() == 1 || set.holds(s[1]))) {
        let rest = s.drop_first();
        lemma_names_trimmed_front(rest, v);
        let nothing = Seq::<char>::empty();
        lemma_names_of_part(nothing, v);
        if set.holds(s[0]) {
            lemma_names_behind_part(nothing, s[0], rest, v);
            assert(nothing.push(s[0]) + rest =~= s);
            assert(none + names(rest, v) =~= names(rest, v));
        } else {
            let dot = seq!['.'];
            assert forall|i: int| 0 <= i < dot.len() implies !set.holds(#[trigger] dot[i]) by {}
            lemma_names_of_part(dot, v);
            if s.len() == 1 {
                assert(s =~= dot);
                assert(rest =~= nothing);
            } else {
                let more = s.skip(2);
                lemma_names_behind_part(dot, s[1], more, v);
                lemma_names_behind_part(nothing, s[1], more, v);
                assert(dot.push(s[1]) + more =~= s);
                assert(nothing.push(s[1]) + more =~= rest);
            }
        }
    }
}

/// How many characters the first part of a text has.
spec fn first_part_len(s: Seq<char>, v: bool) -> int
    decreases s.len(),
{
    if s.len() == 0 || separators(v).holds(s[0]) {
        0
    } else {
        1 + first_part_len(s.drop_first(), v)
    }
}

proof fn lemma_first_part(s: Seq<char>, v: bool)
    ensures
        0 <= first_part_len(s, v) <= s.len(),
        without_first_part(s, v) == s.skip(first_part_len(s, v)),
        forall|i: int| 0 <= i < first_part_len(s, v) ==> !separators(v).holds(#[trigger] s[i]),
        first_part_len(s, v) < s.len() ==> separators(v).holds(s[first_part_len(s, v)]),
    decreases s.len(),
{
    if s.len() > 0 && !separators(v).holds(s[0]) {
        let rest = s.drop_first();
        lemma_first_part(rest, v);
        let n = first_part_len(rest, v);
        assert(rest.skip(n) =~= s.skip(n + 1));
        assert forall|i: int| 0 <= i < n + 1 implies !separators(v).holds(#[trigger] s[i]) by {
            if i > 0 {
                assert(rest[i - 1] == s[i]);
            }
        }
        if n < rest.len() {
            assert(rest[n] == s[n + 1]);
        }
    } else {
        assert(s.skip(0) =~= s);
    }
}

/// Behind the first part of a text that begins with a name stand the other
/// names.
proof fn lemma_names_without_first(s: Seq<char>, v: bool)
    requires
        trimmed_front(s, v) == s,
        s.len() > 0,
    ensures
        names(s, v).len() > 0,
        names(without_first_part(s, v), v) == names(s, v).drop_first(),
{
    lemma_first_part(s, v);
    lemma_names_trimmed_front(s, v);
    let n = first_part_len(s, v);
    let part = s.take(n);
    let rest = s.skip(n);
    let none = Seq::<Seq<char>>::empty();
    assert forall|i: int| 0 <= i < part.len() implies !separators(v).holds(#[trigger] part[i]) by {
        assert(part[i] == s[i]);
    }
    assert(n > 0);
    lemma_names_of_part(part, v);
    assert(!is_blank(part, v)) by {
        if !v && part == seq!['.'] {
            assert(part[0] == s[0]);
            assert(part.len() == 1);
            assert(trimmed_front(s, v) == trimmed_front(s.drop_first(), v));
            lemma_trimmed_front_is_no_longer(s.drop_first(), v);
            assert(false);
        }
    }
    if n < s.len() {
        let more = s.skip(n + 1);
        lemma_names_behind_part(part, s[n], more, v);
        assert(part.push(s[n]) + more =~= s);
        lemma_names_of_part(Seq::<char>::empty(), v);
        lemma_names_behind_part(Seq::<char>::empty(), s[n], more, v);
        assert(Seq::<char>::empty().push(s[n]) + more =~= rest);
        assert(names(s, v) == seq![part] + names(more, v));
        assert((seq![part] + names(more, v)).drop_first() =~= none + names(more, v));
    } else {
        assert(part =~= s);
        assert(rest =~= Seq::<char>::empty());
        lemma_names_of_part(rest, v);
        assert(seq![part].drop_first() =~= none);
    }
}

proof fn lemma_trimmed_front_is_no_longer(s: Seq<char>, v: bool)
    ensures
        trimmed_front(s, v).len() <= s.len(),
        trimmed_front(trimmed_front(s, v), v) == trimmed_front(s, v),
    decreases s.len(),
{
    if s.len() > 0 {
        lemma_trimmed_front_is_no_longer(s.drop_first(), v);
    }
}

/// Behind the first names of a text stand the others.
proof fn lemma_names_behind_names(s: Seq<char>, n: int, v: bool)
    requires
        0 <= n <= names(s, v).len(),
    ensures
        names(behind_names(s, n, v), v) == names(s, v).skip(n),
        behind_names(s, n, v).len() > 0 ==> !separators(v).holds(behind_names(s, n, v)[0]),
    decreases n,
{
    let at_name = trimmed_front(s, v);
    lemma_names_trimmed_front(s, v);
    lemma_trimmed_front_is_no_longer(s, v);
    if n == 0 {
        assert(names(s, v).skip(0) =~= names(s, v));
    } else {
        if at_name.len() == 0 {
            assert(at_name =~= Seq::<char>::empty());
            lemma_names_of_part(at_name, v);
            assert(false);
        }
        lemma_names_without_first(at_name, v);
        let rest = without_first_part(at_name, v);
        lemma_names_behind_names(rest, n - 1, v);
        assert(names(s, v).drop_first().skip(n - 1) =~= names(s, v).skip(n));
    }
}

proof fn lemma_pieces_hold_no_separator(s: Seq<char>, set: CharSet)
    ensures
        forall|i: int, j: int|
            0 <= i < text::pieces(s, set).len() && 0 <= j < text::pieces(s, set)[i].len()
                ==> !set.holds(#[trigger] text::pieces(s, set)[i][j]),
    decreases s.len(),
{
    if s.len() > 0 {
        lemma_pieces_hold_no_separator(s.drop_last(), set);
        text::lemma_pieces_nonempty(s.drop_last(), set);
        let before = text::pieces(s.drop_last(), set);
        let all = text::pieces(s, set);
        assert forall|i: int, j: int|
            0 <= i < all.len() && 0 <= j < all[i].len() implies !set.holds(
            #[trigger] all[i][j],
        ) by {
            if i < before.len() && j < before[i].len() {
                assert(!set.holds(before[i][j]));
            }
        }
    }
}

proof fn lemma_kept_parts_are_parts(parts: Seq<Seq<char>>, v: bool)
    ensures
        forall|i: int|
            0 <= i < kept_parts(parts, v).len() ==> parts.contains(
                #[trigger] kept_parts(parts, v)[i],
            ) && !is_blank(kept_parts(parts, v)[i], v),
    decreases parts.len(),
{
    if parts.len() > 0 {
        lemma_kept_parts_are_parts(parts.drop_last(), v);
        let kept = kept_parts(parts, v);
        let before = kept_parts(parts.drop_last(), v);
        assert forall|i: int| 0 <= i < kept.len() implies parts.contains(#[trigger] kept[i])
            && !is_blank(kept[i], v) by {
            if i < before.len() {
                assert(kept[i] == before[i]);
                let k = parts.drop_last().index_of(kept[i]);
                assert(parts[k] == kept[i]);
            } else {
                assert(kept[i] == parts[parts.len() - 1]);
            }
        }
    }
}

/// The names in a text are not blank, and none holds a separator.
pub proof fn law_names_are_names(s: Seq<char>, verbatim: bool)
    ensures
        forall|i: int|
            0 <= i < names(s, verbatim).len() ==> !is_blank(
                #[trigger] names(s, verbatim)[i],
                verbatim,
            ),
        forall|i: int, j: int|
            0 <= i < names(s, verbatim).len() && 0 <= j < names(s, verbatim)[i].len()
                ==> !separators(verbatim).holds(#[trigger] names(s, verbatim)[i][j]),
{
    let set = separators(verbatim);
    let parts = text::pieces(s, set);
    lemma_pieces_hold_no_separator(s, set);
    lemma_kept_parts_are_parts(parts, verbatim);
    let kept = names(s, verbatim);
    assert forall|i: int, j: int| 0 <= i < kept.len() && 0 <= j < kept[i].len() implies !set.holds(
        #[trigger] kept[i][j],
    ) by {
        assert(parts.contains(kept[i]));
        let k = parts.index_of(kept[i]);
        assert(!set.holds(parts[k][j]));
    }
}

/// Whether a path has a prefix and shows its root.
pub open spec fn begins_at_root(s: Seq<char>) -> bool {
    !(prefix_kind(s) is Nothing) && shows_root(s)
}

/// Whether the prefix as it is compared is that of a verbatim path.
proof fn lemma_key_tells_verbatim(s: Seq<char>)
    requires
        !(prefix_kind(s) is Nothing),
    ensures
        is_verbatim(s) <==> prefix_key(s).len() >= 4 && prefix_key(s)[0] == '\\' && prefix_key(s)[2]
            == '?',
{
    lemma_verbatim_by_characters(s);
    match prefix_kind(s) {
        PrefixKind::Verbatim => {
            lemma_next_separator_bounds(s, 4, true);
        },
        PrefixKind::Device => {
            lemma_next_separator_bounds(s, 4, false);
            assert(prefix_key(s)[2] == '.');
        },
        PrefixKind::Share => {
            let server = next_separator(s, 2, false);
            lemma_next_separator_bounds(s, 2, false);
            lemma_next_separator_bounds(s, server + 1, false);
            assert(prefix_key(s)[0] == '/');
        },
        PrefixKind::VerbatimShare => {
            let server = next_separator(s, 8, true);
            lemma_next_separator_bounds(s, 8, true);
            if server < s.len() {
                lemma_next_separator_bounds(s, server + 1, true);
            }
        },
        _ => {},
    }
}

/// What lies in a path that begins at a root begins at that root too.
proof fn lemma_same_head(path: Seq<char>, base: Seq<char>)
    requires
        begins_at_root(base),
        lies_in(path, base),
    ensures
        head(path) == head(base),
        head(base).len() == 2,
        is_verbatim(path) == is_verbatim(base),
        names_below_root(base).is_prefix_of(names_below_root(path)),
{
    let own = names_below_root(path);
    let all = components(path);
    law_names_are_names(body(path), is_verbatim(path));
    let root = seq!['\\'];
    assert(head(base)[1] == root);
    assert(components(base)[1] == root);
    assert(components(base).is_prefix_of(all));
    assert(all[1] == components(base)[1]);
    if head(path).len() < 2 {
        let k = 1 - head(path).len();
        assert(all[1] == own[k]);
        assert(own[k][0] == '\\');
        assert(!separators(is_verbatim(path)).holds(own[k][0]));
        assert(false);
    }
    assert(all[0] == components(base)[0]);
    assert(all[0] == head(path)[0]);
    assert(components(base)[0] == head(base)[0]);
    if prefix_kind(path) is Nothing {
        assert(false);
    }
    assert(head(path)[1] == all[1]);
    assert(head(path) =~= head(base));
    lemma_key_tells_verbatim(path);
    lemma_key_tells_verbatim(base);
    let n = names_below_root(base).len() as int;
    assert(all.take(2 + n) == components(base));
    assert(own.take(n) =~= names_below_root(base)) by {
        assert forall|i: int| 0 <= i < n implies own[i] == names_below_root(base)[i] by {
            assert(own[i] == all[i + 2]);
            assert(all.take(2 + n)[i + 2] == components(base)[i + 2]);
        }
    }
}

/// What a path is beyond a path at a root that it lies in holds just the names
/// that it has more, and does not begin with a separator.
pub proof fn law_rest_holds_the_other_names(path: Seq<char>, base: Seq<char>)
    requires
        begins_at_root(base),
        lies_in(path, base),
    ensures
        components(path) == components(base) + names(rest_below(path, base), is_verbatim(base)),
        rest_below(path, base).len() > 0 ==> !separators(is_verbatim(base)).holds(
            rest_below(path, base)[0],
        ),
{
    let v = is_verbatim(base);
    lemma_same_head(path, base);
    let n = components(base).len() - 2;
    let all = names_below_root(path);
    assert(n == names_below_root(base).len());
    lemma_names_behind_names(body(path), n, v);
    let behind = behind_names(body(path), n, v);
    lemma_names_trimmed_back(behind, v);
    assert(rest_below(path, base) == trimmed_back(behind, v));
    assert(all.take(n) + all.skip(n) =~= all);
    assert(components(path) =~= components(base) + all.skip(n));
}

/// Whether a path begins at the root of a drive or at a share.
pub open spec fn is_on_disk(s: Seq<char>) -> bool {
    (prefix_kind(s) is Drive || prefix_kind(s) is Share) && shows_root(s)
}

proof fn lemma_next_separator_stays(a: Seq<char>, b: Seq<char>, from: int)
    requires
        0 <= from <= a.len() <= b.len(),
        b.take(a.len() as int) == a,
        next_separator(a, from, false) < a.len() || b.len() == a.len() || is_separator(
            b[a.len() as int],
        ),
    ensures
        next_separator(b, from, false) == next_separator(a, from, false),
    decreases a.len() - from,
{
    if from < a.len() {
        assert(b[from] == b.take(a.len() as int)[from]);
        if !separators(false).holds(a[from]) {
            lemma_next_separator_stays(a, b, from + 1);
        }
    }
}

/// What is taken from a path on a disk has its components and then the names
/// of what is taken.
pub proof fn law_joined_adds_the_names(base: Seq<char>, relative: Seq<char>)
    requires
        is_on_disk(base),
        prefix_kind(relative) is Nothing,
        !has_separator_at_root(relative),
    ensures
        components(joined(base, relative)) == components(base) + names(relative, false),
{
    let whole = joined(base, relative);
    let n = base.len() as int;
    lemma_verbatim_by_characters(base);
    lemma_verbatim_by_characters(whole);
    let parted = needs_separator(base);
    let middle = if parted {
        seq!['\\']
    } else {
        Seq::<char>::empty()
    };
    assert(whole =~= base + middle + relative);
    assert(whole.take(n) =~= base);
    assert forall|i: int| 0 <= i < n implies whole[i] == base[i] by {
        assert(whole.take(n)[i] == base[i]);
    }
    if prefix_kind(base) is Share {
        let server = next_separator(base, 2, false);
        lemma_next_separator_bounds(base, 2, false);
        lemma_next_separator_bounds(base, server + 1, false);
        lemma_separator_is_found(base, 2);
        lemma_separator_is_found(base, server + 1);
        if next_separator(base, server + 1, false) == n {
            lemma_before_separator(base, server + 1, n - 1);
            assert(!is_separator(base[n - 1]));
            assert(parted);
            assert(whole[n] == '\\');
        }
        lemma_next_separator_stays(base, whole, 2);
        lemma_next_separator_stays(base, whole, server + 1);
        assert(has_share(whole));
    }
    assert(prefix_kind(whole) == prefix_kind(base));
    assert(prefix_len(whole) == prefix_len(base));
    let p = prefix_len(base);
    assert(whole.take(p) =~= base.take(p));
    assert(head(whole) =~= head(base));
    let start = body(base);
    let rest = body(whole);
    if p < n {
        assert(is_separator(base[p]));
        assert(rest =~= start + middle + relative);
        if start.len() == 0 {
            assert(base.last() == base[p]);
            assert(rest =~= relative);
            lemma_names_of_part(start, false);
            assert(names(start, false) + names(relative, false) =~= names(relative, false));
        } else if parted {
            lemma_names_before_separator(start, '\\', false);
            lemma_names_behind_separator(start.push('\\'), relative, false);
            assert(rest =~= start.push('\\') + relative);
        } else {
            assert(start.last() == base.last());
            lemma_names_behind_separator(start, relative, false);
            assert(rest =~= start + relative);
        }
    } else {
        assert(start =~= Seq::<char>::empty());
        lemma_names_of_part(start, false);
        assert(rest =~= relative);
        assert(names(start, false) + names(relative, false) =~= names(relative, false));
    }
    assert(components(whole) =~= components(base) + names(relative, false));
}

/// A text that begins with neither a separator nor a drive has no prefix.
pub proof fn lemma_no_prefix_without_separator(s: Seq<char>)
    requires
        !has_drive(s),
        s.len() > 0 ==> !is_separator(s[0]),
    ensures
        prefix_kind(s) is Nothing,
        !has_separator_at_root(s),
{
    lemma_verbatim_by_characters(s);
}

proof fn lemma_separator_is_found(s: Seq<char>, from: int)
    requires
        0 <= from <= s.len(),
    ensures
        next_separator(s, from, false) < s.len() ==> is_separator(
            s[next_separator(s, from, false)],
        ),
    decreases s.len() - from,
{
    if from < s.len() && !separators(false).holds(s[from]) {
        lemma_separator_is_found(s, from + 1);
    }
}

proof fn lemma_before_separator(s: Seq<char>, from: int, i: int)
    requires
        0 <= from <= i < next_separator(s, from, false),
        i < s.len(),
    ensures
        !is_separator(s[i]),
    decreases s.len() - from,
{
    if from < i {
        lemma_before_separator(s, from + 1, i);
    }
}

} // verus!
