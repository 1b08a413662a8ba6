//! Text as sequences of characters.
//!
//! Every contract of the library speaks of a string by its view, the sequence
//! of its characters. This module holds the operations that the rest of the
//! library performs on text, each against a direct statement over sequences.

#![verifier::loop_isolation(false)]

use vstd::prelude::*;

use crate::list::Queue;

verus! {

broadcast use vstd::string::group_string_axioms;

/// `String::push` appends one character to the end of the string.
pub assume_specification[ String::push ](s: &mut String, c: char)
    ensures
        final(s)@ == old(s)@.push(c),
;

/// `String::push_str` appends the given text to the end of the string.
pub assume_specification[ String::push_str ](s: &mut String, other: &str)
    ensures
        final(s)@ == old(s)@ + other@,
;

/// What `str::to_lowercase` makes of a text.
pub uninterp spec fn unicode_lowercase(s: Seq<char>) -> Seq<char>;

/// What `str::to_uppercase` makes of a text.
pub uninterp spec fn unicode_uppercase(s: Seq<char>) -> Seq<char>;

/// What `char::is_alphanumeric` says of a character.
pub uninterp spec fn unicode_alphanumeric(c: char) -> bool;

/// Calls `str::to_lowercase`. The result is named; on a text of ASCII
/// characters it is the text with `A` to `Z` mapped to `a` to `z`.
#[verifier::external_body]
pub(crate) fn to_lowercase(s: &str) -> (r: String)
    ensures
        r@ == unicode_lowercase(s@),
        all_ascii(s@) ==> r@ == ascii_lowercase(s@),
{
    s.to_lowercase()
}

/// Calls `str::to_uppercase`. The result is named; on a text of ASCII
/// characters it is the text with `a` to `z` mapped to `A` to `Z`.
#[verifier::external_body]
pub(crate) fn to_uppercase(s: &str) -> (r: String)
    ensures
        r@ == unicode_uppercase(s@),
        all_ascii(s@) ==> r@ == ascii_uppercase(s@),
{
    s.to_uppercase()
}

/// Calls `char::is_alphanumeric`. The answer is named; on an ASCII character
/// it is whether the character is a letter or a digit.
#[verifier::external_body]
pub(crate) fn is_alphanumeric(c: char) -> (r: bool)
    ensures
        r == unicode_alphanumeric(c),
        is_ascii(c) ==> r == is_ascii_alphanumeric(c),
{
    c.is_alphanumeric()
}

/// How the error of `String::from_utf8` on bytes that encode no text is written.
pub uninterp spec fn utf8_error(bytes: Seq<u8>) -> Seq<char>;

/// Calls `String::from_utf8`: the text that the bytes encode; where they encode
/// none, the error as it is written, which is named.
#[verifier::external_body]
pub(crate) fn decode_utf8_text(bytes: Vec<u8>) -> (r: Result<String, String>)
    ensures
        r is Ok <==> vstd::utf8::valid_utf8(bytes@),
        r matches Ok(s) ==> s@ == vstd::utf8::decode_utf8(bytes@),
        r matches Err(error) ==> error@ == utf8_error(bytes@),
{
    String::from_utf8(bytes).map_err(|error| error.to_string())
}

/// Whether a character is in the ASCII range.
pub open spec fn is_ascii(c: char) -> bool {
    (c as u32) < 128
}

/// Whether every character of a text is in the ASCII range.
pub open spec fn all_ascii(s: Seq<char>) -> bool {
    forall|i: int| 0 <= i < s.len() ==> is_ascii(#[trigger] s[i])
}

pub open spec fn is_ascii_digit(c: char) -> bool {
    '0' <= c <= '9'
}

pub open spec fn is_ascii_letter(c: char) -> bool {
    'a' <= c <= 'z' || 'A' <= c <= 'Z'
}

pub open spec fn is_ascii_alphanumeric(c: char) -> bool {
    '0' <= c <= '9' || 'a' <= c <= 'z' || 'A' <= c <= 'Z'
}

/// `A` to `Z` mapped to `a` to `z`, everything else unchanged.
pub open spec fn ascii_lower(c: char) -> char {
    if 'A' <= c <= 'Z' {
        ((c as u32) + 32) as char
    } else {
        c
    }
}

/// `a` to `z` mapped to `A` to `Z`, everything else unchanged.
pub open spec fn ascii_upper(c: char) -> char {
    if 'a' <= c <= 'z' {
        ((c as u32) - 32) as char
    } else {
        c
    }
}

pub open spec fn ascii_lowercase(s: Seq<char>) -> Seq<char> {
    s.map_values(|c: char| ascii_lower(c))
}

pub open spec fn ascii_uppercase(s: Seq<char>) -> Seq<char> {
    s.map_values(|c: char| ascii_upper(c))
}

/// A text in lower case: of a text of ASCII characters `A` to `Z` are mapped to
/// `a` to `z`.
pub open spec fn lowercase(s: Seq<char>) -> Seq<char> {
    if all_ascii(s) {
        ascii_lowercase(s)
    } else {
        unicode_lowercase(s)
    }
}

/// A text in upper case: of a text of ASCII characters `a` to `z` are mapped to
/// `A` to `Z`.
pub open spec fn uppercase(s: Seq<char>) -> Seq<char> {
    if all_ascii(s) {
        ascii_uppercase(s)
    } else {
        unicode_uppercase(s)
    }
}

/// Whether a character is a letter or a digit.
pub open spec fn alphanumeric(c: char) -> bool {
    if is_ascii(c) {
        is_ascii_alphanumeric(c)
    } else {
        unicode_alphanumeric(c)
    }
}

/// Whether two characters differ in letter case or in the kind of slash alone.
pub open spec fn alike(a: char, b: char) -> bool {
    ||| ascii_lower(a) == ascii_lower(b)
    ||| (a == '\\' || a == '/') && (b == '\\' || b == '/')
}

/// Whether two texts of ASCII characters differ in letter case and in the kind
/// of their slashes alone.
pub open spec fn all_alike(s: Seq<char>, t: Seq<char>) -> bool {
    &&& all_ascii(s) && all_ascii(t)
    &&& s.len() == t.len()
    &&& forall|i: int| 0 <= i < s.len() ==> alike(#[trigger] s[i], t[i])
}

/// Texts that differ in letter case and slashes alone are one text in lower
/// case with backslashes, in whichever order these are made.
pub proof fn lemma_alike_in_lower_case(s: Seq<char>, t: Seq<char>)
    requires
        all_alike(s, t),
    ensures
        replaced(lowercase(s), '/', '\\') == replaced(lowercase(t), '/', '\\'),
        lowercase(replaced(s, '/', '\\')) == lowercase(replaced(t, '/', '\\')),
{
    let x = replaced(s, '/', '\\');
    let y = replaced(t, '/', '\\');
    assert(all_ascii(x)) by {
        assert forall|i: int| 0 <= i < x.len() implies is_ascii(#[trigger] x[i]) by {
            assert(is_ascii(s[i]));
        }
    }
    assert(all_ascii(y)) by {
        assert forall|i: int| 0 <= i < y.len() implies is_ascii(#[trigger] y[i]) by {
            assert(is_ascii(t[i]));
        }
    }
    assert forall|i: int| 0 <= i < s.len() implies replaced(lowercase(s), '/', '\\')[i] == replaced(
        lowercase(t),
        '/',
        '\\',
    )[i] && lowercase(x)[i] == lowercase(y)[i] by {
        assert(alike(s[i], t[i]));
    }
    assert(replaced(lowercase(s), '/', '\\') =~= replaced(lowercase(t), '/', '\\'));
    assert(lowercase(x) =~= lowercase(y));
}

/// The characters that the Unicode property `White_Space` holds of.
pub open spec fn is_whitespace_char(c: char) -> bool {
    let n = c as u32;
    ||| 9 <= n <= 13
    ||| n == 32
    ||| n == 0x85
    ||| n == 0xa0
    ||| n == 0x1680
    ||| 0x2000 <= n <= 0x200a
    ||| n == 0x2028
    ||| n == 0x2029
    ||| n == 0x202f
    ||| n == 0x205f
    ||| n == 0x3000
}

/// Whether a character is white space.
pub fn is_whitespace(c: char) -> (r: bool)
    ensures
        r == is_whitespace_char(c),
{
    let n: u32 = c as u32;
    (9 <= n && n <= 13) || n == 32 || n == 0x85 || n == 0xa0 || n == 0x1680
        || (0x2000 <= n && n <= 0x200a) || n == 0x2028 || n == 0x2029 || n == 0x202f
        || n == 0x205f || n == 0x3000
}

/// The characters of a text, in order.
pub fn chars_of(s: &str) -> (v: Vec<char>)
    ensures
        v@ == s@,
{
    let mut v: Vec<char> = Vec::new();
    for c in it: s.chars()
        invariant
            it.seq() == s@,
            v@ == s@.take(it.index() as int),
    {
        assert(s@.take(it.index() as int).push(c) =~= s@.take(it.index() as int + 1));
        v.push(c);
    }
    assert(s@.take(s@.len() as int) =~= s@);
    v
}

/// The text made of the characters from `from` up to but not including `to`.
pub fn string_of(v: &Vec<char>, from: usize, to: usize) -> (r: String)
    requires
        from <= to <= v@.len(),
    ensures
        r@ == v@.subrange(from as int, to as int),
{
    let mut r = String::new();
    let mut i: usize = from;
    while i < to
        invariant
            from <= i <= to <= v@.len(),
            r@ == v@.subrange(from as int, i as int),
        decreases to - i,
    {
        r.push(v[i]);
        i = i + 1;
        assert(v@.subrange(from as int, i as int) =~= v@.subrange(from as int, i - 1).push(
            v@[i - 1],
        ));
    }
    r
}

/// The characters that no file name holds.
pub open spec fn is_forbidden_char(c: char) -> bool {
    c == '\\' || c == '/' || c == ':' || c == '"' || c == '*' || c == '?' || c == '<' || c == '>'
        || c == '|'
}

/// The characters of the Unicode category `Cc`.
pub open spec fn is_control_char(c: char) -> bool {
    c as u32 <= 0x1f || 0x7f <= c as u32 <= 0x9f
}

/// A text without its control characters.
pub open spec fn without_controls(s: Seq<char>) -> Seq<char>
    decreases s.len(),
{
    if s.len() == 0 {
        s
    } else if is_control_char(s.last()) {
        without_controls(s.drop_last())
    } else {
        without_controls(s.drop_last()).push(s.last())
    }
}

/// Removes the control characters of a text.
pub fn remove_controls(s: &str) -> (r: String)
    ensures
        r@ == without_controls(s@),
{
    let v = chars_of(s);
    let mut r = String::new();
    let mut i: usize = 0;
    assert(s@.take(0) =~= seq![]);
    while i < v.len()
        invariant
            v@ == s@,
            i <= v@.len(),
            r@ == without_controls(s@.take(i as int)),
        decreases v@.len() - i,
    {
        let c = v[i];
        assert(s@.take(i + 1).drop_last() =~= s@.take(i as int));
        let n: u32 = c as u32;
        if !(n <= 0x1f || (0x7f <= n && n <= 0x9f)) {
            r.push(c);
        }
        i = i + 1;
    }
    assert(s@.take(i as int) =~= s@);
    r
}

/// Whether a character is an ASCII letter or digit.
pub fn is_plain_char(c: char) -> (r: bool)
    ensures
        r == is_ascii_alphanumeric(c),
{
    ('0' <= c && c <= '9') || ('a' <= c && c <= 'z') || ('A' <= c && c <= 'Z')
}

/// A set of characters that text is trimmed of or split at.
#[derive(Clone, Copy, Debug)]
pub enum CharSet {
    Whitespace,
    One(char),
    Two(char, char),
    /// Everything but letters and digits.
    NotAlphanumeric,
    /// Everything but ASCII letters and digits.
    NotAsciiAlphanumeric,
    /// The characters that no file name holds.
    Forbidden,
}

impl CharSet {
    pub open spec fn holds(self, c: char) -> bool {
        match self {
            CharSet::Whitespace => is_whitespace_char(c),
            CharSet::One(a) => c == a,
            CharSet::Two(a, b) => c == a || c == b,
            CharSet::NotAlphanumeric => !alphanumeric(c),
            CharSet::NotAsciiAlphanumeric => !is_ascii_alphanumeric(c),
            CharSet::Forbidden => is_forbidden_char(c),
        }
    }

    /// Whether the set holds the character.
    pub fn has_char(&self, c: char) -> (r: bool)
        ensures
            r == self.holds(c),
    {
        match self {
            CharSet::Whitespace => is_whitespace(c),
            CharSet::One(a) => c == *a,
            CharSet::Two(a, b) => c == *a || c == *b,
            CharSet::NotAlphanumeric => !is_alphanumeric(c),
            CharSet::NotAsciiAlphanumeric => !is_plain_char(c),
            CharSet::Forbidden => c == '\\' || c == '/' || c == ':' || c == '"' || c == '*' || c
                == '?' || c == '<' || c == '>' || c == '|',
        }
    }
}

/// The text without its leading characters that are in the set.
pub open spec fn trimmed_start(s: Seq<char>, set: CharSet) -> Seq<char>
    decreases s.len(),
{
    if s.len() > 0 && set.holds(s[0]) {
        trimmed_start(s.drop_first(), set)
    } else {
        s
    }
}

/// The text without its trailing characters that are in the set.
pub open spec fn trimmed_end(s: Seq<char>, set: CharSet) -> Seq<char>
    decreases s.len(),
{
    if s.len() > 0 && set.holds(s.last()) {
        trimmed_end(s.drop_last(), set)
    } else {
        s
    }
}

/// The text without its leading and trailing characters that are in the set.
pub open spec fn trimmed(s: Seq<char>, set: CharSet) -> Seq<char> {
    trimmed_end(trimmed_start(s, set), set)
}

/// Removes leading characters that are in the set.
pub fn trim_start(s: &str, set: CharSet) -> (r: String)
    ensures
        r@ == trimmed_start(s@, set),
{
    let v = chars_of(s);
    let mut i: usize = 0;
    assert(v@.subrange(0, v@.len() as int) =~= v@);
    while i < v.len() && set.has_char(v[i])
        invariant
            i <= v@.len(),
            trimmed_start(v@, set) == trimmed_start(v@.subrange(i as int, v@.len() as int), set),
        decreases v@.len() - i,
    {
        assert(v@.subrange(i as int, v@.len() as int).drop_first() =~= v@.subrange(
            i + 1,
            v@.len() as int,
        ));
        i = i + 1;
    }
    string_of(&v, i, v.len())
}

/// Removes trailing characters that are in the set.
pub fn trim_end(s: &str, set: CharSet) -> (r: String)
    ensures
        r@ == trimmed_end(s@, set),
{
    let v = chars_of(s);
    let mut n: usize = v.len();
    assert(v@.subrange(0, n as int) =~= v@);
    while n > 0 && set.has_char(v[n - 1])
        invariant
            n <= v@.len(),
            trimmed_end(v@, set) == trimmed_end(v@.subrange(0, n as int), set),
        decreases n,
    {
        assert(v@.subrange(0, n as int).drop_last() =~= v@.subrange(0, n - 1));
        n = n - 1;
    }
    string_of(&v, 0, n)
}

/// Removes leading and trailing characters that are in the set.
pub fn trim(s: &str, set: CharSet) -> (r: String)
    ensures
        r@ == trimmed(s@, set),
{
    let start = trim_start(s, set);
    trim_end(start.as_str(), set)
}

/// Whether two texts hold the same characters.
pub fn same(a: &str, b: &str) -> (r: bool)
    ensures
        r == (a@ == b@),
{
    let x = chars_of(a);
    let y = chars_of(b);
    if x.len() != y.len() {
        return false;
    }
    let mut i: usize = 0;
    while i < x.len()
        invariant
            x@.len() == y@.len(),
            i <= x@.len(),
            x@.take(i as int) == y@.take(i as int),
        decreases x@.len() - i,
    {
        if x[i] != y[i] {
            assert(a@[i as int] != b@[i as int]);
            return false;
        }
        assert(x@.take(i + 1) =~= x@.take(i as int).push(x@[i as int]));
        assert(y@.take(i + 1) =~= y@.take(i as int).push(y@[i as int]));
        i = i + 1;
    }
    assert(x@.take(i as int) =~= x@);
    assert(y@.take(i as int) =~= y@);
    true
}

/// Whether `pat` stands in `s` at position `i`.
pub open spec fn stands_at(s: Seq<char>, pat: Seq<char>, i: int) -> bool {
    0 <= i && i + pat.len() <= s.len() && s.subrange(i, i + pat.len()) == pat
}

/// Whether `pat` stands somewhere in `s`.
pub open spec fn contains_text(s: Seq<char>, pat: Seq<char>) -> bool {
    exists|i: int| #[trigger] stands_at(s, pat, i)
}

/// Whether `s` begins with `pat`.
pub open spec fn has_prefix(s: Seq<char>, pat: Seq<char>) -> bool {
    stands_at(s, pat, 0)
}

/// Whether `s` ends with `pat`.
pub open spec fn has_suffix(s: Seq<char>, pat: Seq<char>) -> bool {
    stands_at(s, pat, s.len() - pat.len())
}

/// Whether the characters `pat` stand in `v` at position `i`.
pub fn stands_at_index(v: &Vec<char>, pat: &Vec<char>, i: usize) -> (r: bool)
    ensures
        r == stands_at(v@, pat@, i as int),
{
    if i > v.len() || pat.len() > v.len() - i {
        return false;
    }
    let mut k: usize = 0;
    while k < pat.len()
        invariant
            k <= pat@.len(),
            i + pat@.len() <= v@.len(),
            forall|j: int| 0 <= j < k ==> v@[i + j] == pat@[j],
        decreases pat@.len() - k,
    {
        if v[i + k] != pat[k] {
            assert(v@.subrange(i as int, i + pat@.len())[k as int] != pat@[k as int]);
            return false;
        }
        k = k + 1;
    }
    assert(v@.subrange(i as int, i + pat@.len()) =~= pat@);
    true
}

/// Whether the text begins with `pat`.
pub fn starts_with(s: &str, pat: &str) -> (r: bool)
    ensures
        r == has_prefix(s@, pat@),
{
    let v = chars_of(s);
    let p = chars_of(pat);
    stands_at_index(&v, &p, 0)
}

/// Whether the text ends with `pat`.
pub fn ends_with(s: &str, pat: &str) -> (r: bool)
    ensures
        r == has_suffix(s@, pat@),
{
    let v = chars_of(s);
    let p = chars_of(pat);
    if p.len() > v.len() {
        return false;
    }
    stands_at_index(&v, &p, v.len() - p.len())
}

/// The first position at which `pat` stands in `s`, if there is one.
pub open spec fn is_first_index(s: Seq<char>, pat: Seq<char>, r: Option<usize>) -> bool {
    match r {
        Some(i) => stands_at(s, pat, i as int) && forall|j: int|
            0 <= j < i ==> !#[trigger] stands_at(s, pat, j),
        None => !contains_text(s, pat),
    }
}

/// Finds the first position at or after `from` at which `pat` stands.
pub fn find_from(v: &Vec<char>, pat: &Vec<char>, from: usize) -> (r: Option<usize>)
    requires
        from <= v@.len(),
    ensures
        match r {
            Some(i) => from <= i && stands_at(v@, pat@, i as int) && forall|j: int|
                from <= j < i ==> !#[trigger] stands_at(v@, pat@, j),
            None => forall|j: int| from <= j ==> !#[trigger] stands_at(v@, pat@, j),
        },
{
    let mut i: usize = from;
    while i <= v.len() && pat.len() <= v.len() - i
        invariant
            from <= i,
            forall|j: int| from <= j < i ==> !#[trigger] stands_at(v@, pat@, j),
        decreases v@.len() + 1 - i,
    {
        if stands_at_index(v, pat, i) {
            return Some(i);
        }
        if i == v.len() {
            return None;
        }
        i = i + 1;
    }
    None
}

/// Finds the first position at which `pat` stands.
pub fn find(s: &str, pat: &str) -> (r: Option<usize>)
    ensures
        is_first_index(s@, pat@, r),
{
    let v = chars_of(s);
    let p = chars_of(pat);
    find_from(&v, &p, 0)
}

/// Whether `pat` stands somewhere in the text.
pub fn contains(s: &str, pat: &str) -> (r: bool)
    ensures
        r == contains_text(s@, pat@),
{
    find(s, pat).is_some()
}

/// Whether the text holds the character.
pub fn contains_char(s: &str, c: char) -> (r: bool)
    ensures
        r == s@.contains(c),
{
    let v = chars_of(s);
    let mut i: usize = 0;
    while i < v.len()
        invariant
            v@ == s@,
            i <= v@.len(),
            forall|j: int| 0 <= j < i ==> v@[j] != c,
        decreases v@.len() - i,
    {
        if v[i] == c {
            assert(s@[i as int] == c);
            return true;
        }
        i = i + 1;
    }
    false
}

/// The text with each `from` replaced by `to`.
pub open spec fn replaced(s: Seq<char>, from: char, to: char) -> Seq<char> {
    s.map_values(|c: char| if c == from { to } else { c })
}

/// Replaces each `from` by `to`.
pub fn replace_char(s: &str, from: char, to: char) -> (r: String)
    ensures
        r@ == replaced(s@, from, to),
{
    let v = chars_of(s);
    let mut r = String::new();
    let mut i: usize = 0;
    while i < v.len()
        invariant
            v@ == s@,
            i <= v@.len(),
            r@ == replaced(s@, from, to).take(i as int),
        decreases v@.len() - i,
    {
        let c = v[i];
        let d = if c == from { to } else { c };
        r.push(d);
        assert(replaced(s@, from, to).take(i + 1) =~= replaced(s@, from, to).take(i as int).push(
            d,
        ));
        i = i + 1;
    }
    assert(replaced(s@, from, to).take(i as int) =~= replaced(s@, from, to));
    r
}

/// The text with each `from` replaced by the text `to`.
pub open spec fn expanded(s: Seq<char>, from: char, to: Seq<char>) -> Seq<char>
    decreases s.len(),
{
    if s.len() == 0 {
        seq![]
    } else if s.last() == from {
        expanded(s.drop_last(), from, to) + to
    } else {
        expanded(s.drop_last(), from, to).push(s.last())
    }
}

/// Replaces each `from` by the text `to`.
pub fn expand_char(s: &str, from: char, to: &str) -> (r: String)
    ensures
        r@ == expanded(s@, from, to@),
{
    let v = chars_of(s);
    let mut r = String::new();
    let mut i: usize = 0;
    while i < v.len()
        invariant
            v@ == s@,
            i <= v@.len(),
            r@ == expanded(s@.take(i as int), from, to@),
        decreases v@.len() - i,
    {
        let c = v[i];
        assert(s@.take(i + 1).drop_last() =~= s@.take(i as int));
        if c == from {
            r.push_str(to);
        } else {
            r.push(c);
        }
        i = i + 1;
    }
    assert(s@.take(i as int) =~= s@);
    r
}

/// Maps `A` to `Z` to `a` to `z` and leaves the rest unchanged.
pub fn to_ascii_lowercase(s: &str) -> (r: String)
    ensures
        r@ == ascii_lowercase(s@),
{
    let v = chars_of(s);
    let mut r = String::new();
    let mut i: usize = 0;
    while i < v.len()
        invariant
            v@ == s@,
            i <= v@.len(),
            r@ == ascii_lowercase(s@).take(i as int),
        decreases v@.len() - i,
    {
        let d = lower_char(v[i]);
        r.push(d);
        assert(ascii_lowercase(s@).take(i + 1) =~= ascii_lowercase(s@).take(i as int).push(d));
        i = i + 1;
    }
    assert(ascii_lowercase(s@).take(i as int) =~= ascii_lowercase(s@));
    r
}

/// Maps `a` to `z` to `A` to `Z` and leaves the rest unchanged.
pub fn to_ascii_uppercase(s: &str) -> (r: String)
    ensures
        r@ == ascii_uppercase(s@),
{
    let v = chars_of(s);
    let mut r = String::new();
    let mut i: usize = 0;
    while i < v.len()
        invariant
            v@ == s@,
            i <= v@.len(),
            r@ == ascii_uppercase(s@).take(i as int),
        decreases v@.len() - i,
    {
        let d = upper_char(v[i]);
        r.push(d);
        assert(ascii_uppercase(s@).take(i + 1) =~= ascii_uppercase(s@).take(i as int).push(d));
        i = i + 1;
    }
    assert(ascii_uppercase(s@).take(i as int) =~= ascii_uppercase(s@));
    r
}

/// Maps `A` to `Z` to `a` to `z` and leaves the rest unchanged.
pub fn lower_char(c: char) -> (r: char)
    ensures
        r == ascii_lower(c),
{
    if 'A' <= c && c <= 'Z' {
        (c as u8 + 32) as char
    } else {
        c
    }
}

/// Maps `a` to `z` to `A` to `Z` and leaves the rest unchanged.
pub fn upper_char(c: char) -> (r: char)
    ensures
        r == ascii_upper(c),
{
    if 'a' <= c && c <= 'z' {
        (c as u8 - 32) as char
    } else {
        c
    }
}

/// Whether two texts are equal when `A` to `Z` count as `a` to `z`.
pub fn same_ignoring_ascii_case(a: &str, b: &str) -> (r: bool)
    ensures
        r == (ascii_lowercase(a@) == ascii_lowercase(b@)),
{
    let x = to_ascii_lowercase(a);
    let y = to_ascii_lowercase(b);
    same(x.as_str(), y.as_str())
}

/// The views of a sequence of strings.
pub open spec fn texts(v: Seq<String>) -> Seq<Seq<char>> {
    Seq::new(v.len(), |i: int| v[i]@)
}

/// The view of an optional string.
pub open spec fn view_of(o: Option<String>) -> Option<Seq<char>> {
    match o {
        Some(s) => Some(s@),
        None => None,
    }
}

/// The view of an optional text.
pub open spec fn str_view(s: Option<&str>) -> Option<Seq<char>> {
    match s {
        Some(s) => Some(s@),
        None => None,
    }
}

/// Pushing a string pushes its view.
pub proof fn lemma_texts_push(v: Seq<String>, s: String)
    ensures
        texts(v.push(s)) == texts(v).push(s@),
{
    assert(texts(v.push(s)) =~= texts(v).push(s@));
}

/// The parts of a text between the characters that are in the set. There is
/// always one part more than there are such characters.
pub open spec fn pieces(s: Seq<char>, set: CharSet) -> Seq<Seq<char>>
    decreases s.len(),
{
    if s.len() == 0 {
        seq![Seq::<char>::empty()]
    } else {
        let before = pieces(s.drop_last(), set);
        if set.holds(s.last()) {
            before.push(Seq::empty())
        } else {
            before.drop_last().push(before.last().push(s.last()))
        }
    }
}

/// Splitting always yields at least one part.
pub proof fn lemma_pieces_nonempty(s: Seq<char>, set: CharSet)
    ensures
        pieces(s, set).len() > 0,
    decreases s.len(),
{
    if s.len() > 0 {
        lemma_pieces_nonempty(s.drop_last(), set);
    }
}

/// Splits a text at the characters that are in the set.
pub fn split(s: &str, set: CharSet) -> (r: Vec<String>)
    ensures
        texts(r@) == pieces(s@, set),
        r@.len() > 0,
{
    let v = chars_of(s);
    let mut done: Vec<String> = Vec::new();
    let mut current = String::new();
    let mut i: usize = 0;
    assert(texts(done@).push(current@) =~= pieces(s@.take(0), set));
    while i < v.len()
        invariant
            v@ == s@,
            i <= v@.len(),
            texts(done@).push(current@) == pieces(s@.take(i as int), set),
        decreases v@.len() - i,
    {
        let c = v[i];
        let ghost before = texts(done@).push(current@);
        assert(s@.take(i + 1).drop_last() =~= s@.take(i as int));
        assert(before.last() == current@);
        assert(before.drop_last() =~= texts(done@));
        if set.has_char(c) {
            proof {
                lemma_texts_push(done@, current);
            }
            done.push(current);
            current = String::new();
        } else {
            current.push(c);
        }
        i = i + 1;
        assert(texts(done@).push(current@) =~= pieces(s@.take(i as int), set));
    }
    assert(s@.take(i as int) =~= s@);
    proof {
        lemma_texts_push(done@, current);
    }
    done.push(current);
    done
}

/// The parts that are not empty.
pub open spec fn filled(parts: Seq<Seq<char>>) -> Seq<Seq<char>>
    decreases parts.len(),
{
    if parts.len() == 0 {
        parts
    } else if parts.last().len() > 0 {
        filled(parts.drop_last()).push(parts.last())
    } else {
        filled(parts.drop_last())
    }
}

/// Splits a text at the characters that are in the set and drops empty parts.
pub fn split_filled(s: &str, set: CharSet) -> (r: Vec<String>)
    ensures
        texts(r@) == filled(pieces(s@, set)),
{
    let mut rest = Queue::of(split(s, set));
    let ghost whole = rest@;
    let ghost all = texts(whole);
    let mut r: Vec<String> = Vec::new();
    let ghost mut n: int = 0;
    assert(rest@ =~= whole.skip(0));
    assert(all.take(0) =~= seq![]);
    assert(texts(r@) =~= seq![]);
    while rest.len() > 0
        invariant
            0 <= n <= whole.len(),
            all == texts(whole),
            rest@ == whole.skip(n),
            texts(r@) == filled(all.take(n)),
        decreases rest@.len(),
    {
        let part = rest.take_first();
        assert(part == whole[n]);
        assert(rest@ =~= whole.skip(n + 1));
        assert(all.take(n + 1).drop_last() =~= all.take(n));
        if !part.as_str().is_empty() {
            proof {
                lemma_texts_push(r@, part);
            }
            r.push(part);
        }
        proof {
            n = n + 1;
        }
    }
    assert(all.take(n) =~= all);
    r
}

/// The texts put together with `sep` between neighbours.
pub open spec fn joined(parts: Seq<Seq<char>>, sep: Seq<char>) -> Seq<char>
    decreases parts.len(),
{
    if parts.len() == 0 {
        seq![]
    } else if parts.len() == 1 {
        parts[0]
    } else {
        joined(parts.drop_last(), sep) + sep + parts.last()
    }
}

/// Puts texts together with `sep` between neighbours.
pub fn join(parts: &Vec<String>, sep: &str) -> (r: String)
    ensures
        r@ == joined(texts(parts@), sep@),
{
    let mut r = String::new();
    let mut i: usize = 0;
    while i < parts.len()
        invariant
            i <= parts@.len(),
            r@ == joined(texts(parts@).take(i as int), sep@),
        decreases parts@.len() - i,
    {
        assert(texts(parts@).take(i + 1).drop_last() =~= texts(parts@).take(i as int));
        if i > 0 {
            r.push_str(sep);
        }
        r.push_str(parts[i].as_str());
        i = i + 1;
        assert(r@ =~= joined(texts(parts@).take(i as int), sep@));
    }
    assert(texts(parts@).take(i as int) =~= texts(parts@));
    r
}

/// The digit character of a number below ten.
pub open spec fn digit_char(d: nat) -> char {
    ((48 + d) as u8) as char
}

/// A number in decimal notation.
pub open spec fn decimal(n: nat) -> Seq<char>
    decreases n,
{
    if n < 10 {
        seq![digit_char(n)]
    } else {
        decimal(n / 10).push(digit_char(n % 10))
    }
}

/// Writes a number in decimal notation.
pub fn decimal_text(n: u64) -> (r: String)
    ensures
        r@ == decimal(n as nat),
    decreases n,
{
    if n < 10 {
        let mut r = String::new();
        let d: u8 = 48 + n as u8;
        r.push(d as char);
        assert(r@ =~= decimal(n as nat));
        r
    } else {
        let mut r = decimal_text(n / 10);
        let d: u8 = 48 + (n % 10) as u8;
        r.push(d as char);
        r
    }
}

/// A number in decimal notation, with a minus sign where it is negative.
pub open spec fn signed_decimal(n: int) -> Seq<char> {
    if n < 0 {
        seq!['-'] + decimal((-n) as nat)
    } else {
        decimal(n as nat)
    }
}

/// Writes a number in decimal notation, with a minus sign where it is negative.
pub fn signed_decimal_text(n: i32) -> (r: String)
    ensures
        r@ == signed_decimal(n as int),
{
    if n < 0 {
        let mut r = String::new();
        r.push('-');
        let wide: i64 = n as i64;
        let digits = decimal_text((-wide) as u64);
        r.push_str(digits.as_str());
        assert(r@ =~= signed_decimal(n as int));
        r
    } else {
        decimal_text(n as u64)
    }
}

/// The number that a sequence of decimal digits denotes.
pub open spec fn digits_value(s: Seq<char>) -> nat
    decreases s.len(),
{
    if s.len() == 0 {
        0
    } else {
        digits_value(s.drop_last()) * 10 + (s.last() as u32 - 48) as nat
    }
}

/// Whether a text is made of decimal digits, at least one.
pub open spec fn is_digits(s: Seq<char>) -> bool {
    s.len() > 0 && forall|i: int| 0 <= i < s.len() ==> is_ascii_digit(#[trigger] s[i])
}

/// What a text denotes as an unsigned number of 64 bits: an optional plus
/// sign and decimal digits that denote a number in range.
pub open spec fn parsed_u64(s: Seq<char>) -> Option<u64> {
    let digits = if s.len() > 0 && s[0] == '+' {
        s.drop_first()
    } else {
        s
    };
    if is_digits(digits) && digits_value(digits) <= u64::MAX {
        Some(digits_value(digits) as u64)
    } else {
        None
    }
}

proof fn lemma_digits_value_grows(s: Seq<char>, n: int)
    requires
        0 <= n <= s.len(),
    ensures
        digits_value(s.take(n)) <= digits_value(s),
    decreases s.len(),
{
    if n == s.len() {
        assert(s.take(n) =~= s);
    } else {
        lemma_digits_value_grows(s.drop_last(), n);
        assert(s.drop_last().take(n) =~= s.take(n));
    }
}

/// Reads an unsigned number of 64 bits.
pub fn parse_u64(s: &str) -> (r: Option<u64>)
    ensures
        r == parsed_u64(s@),
{
    let v = chars_of(s);
    let start: usize = if v.len() > 0 && v[0] == '+' { 1 } else { 0 };
    let ghost digits = s@.skip(start as int);
    assert(digits =~= if s@.len() > 0 && s@[0] == '+' { s@.drop_first() } else { s@ });
    if start == v.len() {
        return None;
    }
    let mut acc: u64 = 0;
    let mut i: usize = start;
    while i < v.len()
        invariant
            v@ == s@,
            start <= i <= v@.len(),
            digits == s@.skip(start as int),
            acc == digits_value(digits.take(i - start)),
            forall|j: int| 0 <= j < i - start ==> is_ascii_digit(#[trigger] digits[j]),
        decreases v@.len() - i,
    {
        let c = v[i];
        assert(digits[i - start] == c);
        if c < '0' || c > '9' {
            return None;
        }
        let d: u64 = (c as u32 - 48) as u64;
        assert(digits.take(i - start + 1).drop_last() =~= digits.take(i - start));
        proof {
            lemma_digits_value_grows(digits, i - start + 1);
        }
        if acc > (u64::MAX - d) / 10 {
            assert(acc * 10 + d > u64::MAX);
            return None;
        }
        acc = acc * 10 + d;
        i = i + 1;
    }
    assert(digits.take(i - start) =~= digits);
    Some(acc)
}

/// Whether `a` stands before `b` when texts are ordered character by
/// character, a proper prefix first.
pub open spec fn text_before(a: Seq<char>, b: Seq<char>) -> bool
    decreases a.len(),
{
    if b.len() == 0 {
        false
    } else if a.len() == 0 {
        true
    } else if a[0] != b[0] {
        a[0] < b[0]
    } else {
        text_before(a.drop_first(), b.drop_first())
    }
}

/// Of two different texts one stands before the other, and never both.
pub proof fn lemma_text_before_total(a: Seq<char>, b: Seq<char>)
    ensures
        a == b ==> !text_before(a, b),
        a != b ==> text_before(a, b) != text_before(b, a),
    decreases a.len(),
{
    if a.len() > 0 && b.len() > 0 && a[0] == b[0] {
        lemma_text_before_total(a.drop_first(), b.drop_first());
        if a.drop_first() == b.drop_first() {
            assert(a =~= seq![a[0]] + a.drop_first());
            assert(b =~= seq![b[0]] + b.drop_first());
        }
    } else if a.len() == 0 && b.len() == 0 {
        assert(a =~= b);
    }
}

/// The order of texts is transitive, and so is its complement.
pub proof fn lemma_text_before_transitive(a: Seq<char>, b: Seq<char>, c: Seq<char>)
    ensures
        text_before(a, b) && text_before(b, c) ==> text_before(a, c),
        !text_before(a, b) && !text_before(b, c) ==> !text_before(a, c),
    decreases a.len(),
{
    if a.len() > 0 && b.len() > 0 && c.len() > 0 {
        lemma_text_before_transitive(a.drop_first(), b.drop_first(), c.drop_first());
    }
}

/// A text stands before those that it begins, and between it and one of them
/// stand only texts that it begins.
pub proof fn lemma_prefix_in_order(a: Seq<char>, b: Seq<char>, c: Seq<char>)
    requires
        has_prefix(c, a),
    ensures
        c.len() > a.len() ==> text_before(a, c),
        !text_before(b, a) && !text_before(c, b) ==> has_prefix(b, a),
    decreases a.len(),
{
    if a.len() > 0 {
        assert(c.subrange(0, a.len() as int)[0] == a[0]);
        assert(c.drop_first().subrange(0, a.len() - 1) =~= a.drop_first()) by {
            assert forall|i: int| 0 <= i < a.len() - 1 implies #[trigger] c.drop_first()[i]
                == a.drop_first()[i] by {
                assert(c.subrange(0, a.len() as int)[i + 1] == a[i + 1]);
            }
        }
        if b.len() > 0 {
            lemma_prefix_in_order(a.drop_first(), b.drop_first(), c.drop_first());
            if !text_before(b, a) && !text_before(c, b) {
                assert(b[0] == a[0]);
                let rest = a.drop_first();
                assert(b.subrange(0, a.len() as int) =~= a) by {
                    assert forall|i: int| 0 <= i < a.len() implies b[i] == a[i] by {
                        if i > 0 {
                            assert(b.drop_first().subrange(0, rest.len() as int)[i - 1]
                                == rest[i - 1]);
                        }
                    }
                }
            }
        } else {
            lemma_prefix_in_order(a.drop_first(), b, c.drop_first());
        }
    } else {
        assert(b.subrange(0, 0) =~= a);
    }
}

/// Whether `a` stands before `b` in the order of texts.
pub fn is_before(a: &str, b: &str) -> (r: bool)
    ensures
        r == text_before(a@, b@),
{
    let x = chars_of(a);
    let y = chars_of(b);
    let mut i: usize = 0;
    assert(x@.skip(0) =~= x@);
    assert(y@.skip(0) =~= y@);
    while i < x.len() && i < y.len() && x[i] == y[i]
        invariant
            i <= x@.len(),
            i <= y@.len(),
            text_before(x@, y@) == text_before(x@.skip(i as int), y@.skip(i as int)),
        decreases x@.len() - i,
    {
        assert(x@.skip(i as int).drop_first() =~= x@.skip(i + 1));
        assert(y@.skip(i as int).drop_first() =~= y@.skip(i + 1));
        i = i + 1;
    }
    if i >= y.len() {
        false
    } else if i >= x.len() {
        true
    } else {
        x[i] < y[i]
    }
}

/// Whether a text is one of the names.
pub open spec fn among(names: Seq<&'static str>, s: Seq<char>) -> bool {
    exists|i: int| 0 <= i < names.len() && (#[trigger] names[i])@ == s
}

/// Whether a text contains one of the names.
pub open spec fn contains_one(names: Seq<&'static str>, s: Seq<char>) -> bool {
    exists|i: int| 0 <= i < names.len() && contains_text(s, (#[trigger] names[i])@)
}

/// Whether a text begins with one of the names.
pub open spec fn begins_with_one(names: Seq<&'static str>, s: Seq<char>) -> bool {
    exists|i: int| 0 <= i < names.len() && has_prefix(s, (#[trigger] names[i])@)
}

/// Whether a text ends with one of the names.
pub open spec fn ends_with_one(names: Seq<&'static str>, s: Seq<char>) -> bool {
    exists|i: int| 0 <= i < names.len() && has_suffix(s, (#[trigger] names[i])@)
}

/// Whether a text is one of the names.
pub fn is_among(names: &Vec<&'static str>, s: &str) -> (r: bool)
    ensures
        r == among(names@, s@),
{
    let mut i: usize = 0;
    while i < names.len()
        invariant
            i <= names@.len(),
            forall|j: int| 0 <= j < i ==> (#[trigger] names@[j])@ != s@,
        decreases names@.len() - i,
    {
        if same(names[i], s) {
            return true;
        }
        i = i + 1;
    }
    false
}

/// Whether a text contains one of the names.
pub fn contains_any(names: &Vec<&'static str>, s: &str) -> (r: bool)
    ensures
        r == contains_one(names@, s@),
{
    let mut i: usize = 0;
    while i < names.len()
        invariant
            i <= names@.len(),
            forall|j: int| 0 <= j < i ==> !contains_text(s@, (#[trigger] names@[j])@),
        decreases names@.len() - i,
    {
        if contains(s, names[i]) {
            return true;
        }
        i = i + 1;
    }
    false
}

/// Whether a text begins with one of the names.
pub fn starts_with_any(names: &Vec<&'static str>, s: &str) -> (r: bool)
    ensures
        r == begins_with_one(names@, s@),
{
    let mut i: usize = 0;
    while i < names.len()
        invariant
            i <= names@.len(),
            forall|j: int| 0 <= j < i ==> !has_prefix(s@, (#[trigger] names@[j])@),
        decreases names@.len() - i,
    {
        if starts_with(s, names[i]) {
            return true;
        }
        i = i + 1;
    }
    false
}

/// Whether a text ends with one of the names.
pub fn ends_with_any(names: &Vec<&'static str>, s: &str) -> (r: bool)
    ensures
        r == ends_with_one(names@, s@),
{
    let mut i: usize = 0;
    while i < names.len()
        invariant
            i <= names@.len(),
            forall|j: int| 0 <= j < i ==> !has_suffix(s@, (#[trigger] names@[j])@),
        decreases names@.len() - i,
    {
        if ends_with(s, names[i]) {
            return true;
        }
        i = i + 1;
    }
    false
}

/// The number of bytes of a text in UTF-8.
pub open spec fn byte_len(s: Seq<char>) -> usize {
    vstd::utf8::encode_utf8(s).len() as usize
}

/// The number of bytes of a text in UTF-8.
pub fn byte_length(s: &str) -> (r: usize)
    ensures
        r == byte_len(s@),
{
    s.len()
}

/// The first position at or after `from` at which `pat` stands.
pub open spec fn index_of(s: Seq<char>, pat: Seq<char>, from: int) -> Option<int>
    decreases s.len() - from,
{
    if stands_at(s, pat, from) {
        Some(from)
    } else if from >= s.len() {
        None
    } else {
        index_of(s, pat, from + 1)
    }
}

pub proof fn lemma_index_of(s: Seq<char>, pat: Seq<char>, from: int)
    requires
        0 <= from <= s.len(),
    ensures
        match index_of(s, pat, from) {
            Some(i) => from <= i && stands_at(s, pat, i) && forall|j: int|
                from <= j < i ==> !#[trigger] stands_at(s, pat, j),
            None => forall|j: int| from <= j ==> !#[trigger] stands_at(s, pat, j),
        },
    decreases s.len() - from,
{
    if !stands_at(s, pat, from) && from < s.len() {
        lemma_index_of(s, pat, from + 1);
    }
}

/// The first position at which `pat` stands.
pub fn position(s: &str, pat: &str) -> (r: Option<usize>)
    ensures
        match r {
            Some(i) => index_of(s@, pat@, 0) == Some(i as int) && i + pat@.len() <= s@.len(),
            None => index_of(s@, pat@, 0) is None,
        },
{
    proof {
        lemma_index_of(s@, pat@, 0);
    }
    let r = find(s, pat);
    proof {
        match (r, index_of(s@, pat@, 0)) {
            (Some(i), Some(j)) => {
                if i < j {
                    assert(stands_at(s@, pat@, i as int));
                } else if j < i {
                    assert(stands_at(s@, pat@, j));
                }
            },
            (Some(i), None) => {
                assert(stands_at(s@, pat@, i as int));
            },
            (None, Some(j)) => {
                assert(stands_at(s@, pat@, j));
            },
            (None, None) => {},
        }
    }
    r
}

/// The text up to the first place at which `pat` stands; all of it where `pat`
/// stands nowhere.
pub open spec fn text_up_to(s: Seq<char>, pat: Seq<char>) -> Seq<char> {
    match index_of(s, pat, 0) {
        Some(i) => s.take(i),
        None => s,
    }
}

/// The text up to the first place at which `pat` stands.
pub fn take_up_to(s: &str, pat: &str) -> (r: String)
    ensures
        r@ == text_up_to(s@, pat@),
{
    let v = chars_of(s);
    match position(s, pat) {
        Some(i) => {
            let r = string_of(&v, 0, i);
            assert(r@ =~= s@.take(i as int));
            r
        },
        None => s.to_owned(),
    }
}

/// The text without the copies of `pat` that it begins with.
pub open spec fn without_leading(s: Seq<char>, pat: Seq<char>) -> Seq<char>
    decreases s.len(),
{
    if pat.len() > 0 && has_prefix(s, pat) {
        without_leading(s.skip(pat.len() as int), pat)
    } else {
        s
    }
}

/// Removes the copies of `pat` that a text begins with.
pub fn remove_leading(s: &str, pat: &str) -> (r: String)
    ensures
        r@ == without_leading(s@, pat@),
{
    let v = chars_of(s);
    let p = chars_of(pat);
    let mut i: usize = 0;
    assert(v@.skip(0) =~= v@);
    while p.len() > 0 && stands_at_index(&v, &p, i)
        invariant
            v@ == s@,
            p@ == pat@,
            i <= v@.len(),
            without_leading(s@, pat@) == without_leading(s@.skip(i as int), pat@),
        decreases v@.len() - i,
    {
        assert(s@.skip(i as int).subrange(0, p@.len() as int) =~= s@.subrange(
            i as int,
            i + p@.len(),
        ));
        assert(s@.skip(i as int).skip(p@.len() as int) =~= s@.skip(i + p@.len()));
        let n: usize = v.len();
        assert(i + p@.len() <= n);
        i = i + p.len();
    }
    assert(p@.len() > 0 && has_prefix(s@.skip(i as int), pat@) ==> stands_at(s@, pat@, i as int))
        by {
        if has_prefix(s@.skip(i as int), pat@) {
            assert(s@.skip(i as int).subrange(0, pat@.len() as int) =~= s@.subrange(
                i as int,
                i + pat@.len(),
            ));
        }
    }
    let r = string_of(&v, i, v.len());
    assert(r@ =~= s@.skip(i as int));
    r
}

/// The text with each place at which `from` stands, from the left and without
/// overlaps, replaced by `to`.
pub open spec fn replaced_text(s: Seq<char>, from: Seq<char>, to: Seq<char>) -> Seq<char>
    decreases s.len(),
{
    match index_of(s, from, 0) {
        Some(i) => if from.len() > 0 && 0 <= i && i + from.len() <= s.len() {
            s.take(i) + to + replaced_text(s.skip(i + from.len()), from, to)
        } else {
            s
        },
        None => s,
    }
}

/// Replaces each place at which `from` stands by `to`.
pub fn replace_text(s: &str, from: &str, to: &str) -> (r: String)
    requires
        from@.len() > 0,
    ensures
        r@ == replaced_text(s@, from@, to@),
    decreases s@.len(),
{
    let p = chars_of(from);
    match position(s, from) {
        Some(i) => {
            let v = chars_of(s);
            let mut r = string_of(&v, 0, i);
            assert(r@ =~= s@.take(i as int));
            let n: usize = v.len();
            assert(i + p@.len() <= n);
            let rest = string_of(&v, i + p.len(), n);
            assert(rest@ =~= s@.skip(i + from@.len()));
            let tail = replace_text(rest.as_str(), from, to);
            r.push_str(to);
            r.push_str(tail.as_str());
            r
        },
        None => s.to_owned(),
    }
}

/// The words of a text: its longest parts without white space.
pub open spec fn words(s: Seq<char>) -> Seq<Seq<char>> {
    pieces(s, CharSet::Whitespace).filter(|w: Seq<char>| w.len() > 0)
}

/// A trimmed text does not begin with a character of the set.
pub proof fn lemma_trimmed_begins_outside(s: Seq<char>, set: CharSet)
    ensures
        trimmed(s, set).len() > 0 ==> !set.holds(trimmed(s, set)[0]),
{
    lemma_trimmed_start_begins_outside(s, set);
    lemma_trimmed_end_is_prefix(trimmed_start(s, set), set);
}

proof fn lemma_trimmed_start_begins_outside(s: Seq<char>, set: CharSet)
    ensures
        trimmed_start(s, set).len() > 0 ==> !set.holds(trimmed_start(s, set)[0]),
    decreases s.len(),
{
    if s.len() > 0 && set.holds(s[0]) {
        lemma_trimmed_start_begins_outside(s.drop_first(), set);
    }
}

proof fn lemma_trimmed_end_is_prefix(s: Seq<char>, set: CharSet)
    ensures
        trimmed_end(s, set).len() <= s.len(),
        trimmed_end(s, set) == s.take(trimmed_end(s, set).len() as int),
    decreases s.len(),
{
    if s.len() > 0 && set.holds(s.last()) {
        lemma_trimmed_end_is_prefix(s.drop_last(), set);
        let n = trimmed_end(s, set).len() as int;
        assert(s.drop_last().take(n) =~= s.take(n));
    } else {
        assert(s.take(s.len() as int) =~= s);
    }
}

/// A text with a character outside the set has a part that is not empty.
proof fn lemma_some_piece_nonempty(s: Seq<char>, set: CharSet, k: int) -> (j: int)
    requires
        0 <= k < s.len(),
        !set.holds(s[k]),
    ensures
        0 <= j < pieces(s, set).len(),
        pieces(s, set)[j].len() > 0,
    decreases s.len(),
{
    lemma_pieces_nonempty(s.drop_last(), set);
    if k == s.len() - 1 {
        pieces(s, set).len() - 1
    } else {
        lemma_some_piece_nonempty(s.drop_last(), set, k)
    }
}

/// A trimmed text that is not empty has a word.
pub proof fn lemma_trimmed_has_word(s: Seq<char>)
    requires
        trimmed(s, CharSet::Whitespace).len() > 0,
    ensures
        words(trimmed(s, CharSet::Whitespace)).len() > 0,
{
    let t = trimmed(s, CharSet::Whitespace);
    lemma_trimmed_begins_outside(s, CharSet::Whitespace);
    let j = lemma_some_piece_nonempty(t, CharSet::Whitespace, 0);
    let parts = pieces(t, CharSet::Whitespace);
    let nonempty = |w: Seq<char>| w.len() > 0;
    parts.lemma_filter_contains(nonempty, j);
}

/// Splits a text into words.
pub fn split_words(s: &str) -> (r: Vec<String>)
    ensures
        texts(r@) == words(s@),
{
    let mut parts = Queue::of(split(s, CharSet::Whitespace));
    let ghost all = texts(parts@);
    let ghost nonempty = |w: Seq<char>| w.len() > 0;
    let ghost whole = parts@;
    let ghost mut n: int = 0;
    let mut r: Vec<String> = Vec::new();
    proof {
        reveal(Seq::filter);
    }
    assert(parts@ =~= whole.skip(0));
    assert(texts(r@) =~= all.take(0).filter(nonempty));
    while parts.len() > 0
        invariant
            0 <= n <= whole.len(),
            all == texts(whole),
            parts@ == whole.skip(n),
            nonempty == (|w: Seq<char>| w.len() > 0),
            texts(r@) == all.take(n).filter(nonempty),
        decreases parts@.len(),
    {
        let part = parts.take_first();
        assert(part == whole[n]);
        assert(parts@ =~= whole.skip(n + 1));
        assert(all.take(n + 1).drop_last() =~= all.take(n));
        assert(all.take(n + 1).last() == part@);
        proof {
            reveal(Seq::filter);
            lemma_texts_push(r@, part);
        }
        if !part.as_str().is_empty() {
            r.push(part);
        }
        proof {
            n = n + 1;
        }
    }
    assert(all.take(n) =~= all);
    r
}

} // verus!
