//! Normalised search texts, and the keywords by which what belongs to an
//! application is recognised.

#![verifier::loop_isolation(false)]

use vstd::prelude::*;

use crate::list::{has_text, holds_text};
use crate::text;
use crate::text::CharSet;

verus! {

/// A text as it is searched with: without control characters, surrounding
/// blanks and surrounding quotes.
pub open spec fn sanitized(raw: Seq<char>) -> Seq<char> {
    text::trimmed(
        text::trimmed(text::without_controls(raw), CharSet::Whitespace),
        CharSet::One('"'),
    )
}

/// A search text in lower case.
pub open spec fn match_text(raw: Seq<char>) -> Seq<char> {
    text::lowercase(sanitized(raw))
}

/// A path in lower case with backslashes only.
pub open spec fn windows_path(raw: Seq<char>) -> Seq<char> {
    text::replaced(match_text(raw), '/', '\\')
}

/// Removes control characters, then surrounding blanks, then surrounding
/// quotes.
pub fn sanitize_search_text(raw: &str) -> (r: String)
    ensures
        r@ == sanitized(raw@),
{
    let plain = text::remove_controls(raw);
    let blank = text::trim(plain.as_str(), CharSet::Whitespace);
    text::trim(blank.as_str(), CharSet::One('"'))
}

/// The search text in lower case.
pub fn normalize_match_text(raw: &str) -> (r: String)
    ensures
        r@ == match_text(raw@),
{
    let plain = sanitize_search_text(raw);
    text::to_lowercase(plain.as_str())
}

/// The path in lower case with backslashes only.
pub fn normalize_windows_path(raw: &str) -> (r: String)
    ensures
        r@ == windows_path(raw@),
{
    let lower = normalize_match_text(raw);
    text::replace_char(lower.as_str(), '/', '\\')
}

/// Whether a text holds ASCII letters and digits only.
pub open spec fn is_plain_word(s: Seq<char>) -> bool {
    forall|i: int| 0 <= i < s.len() ==> text::is_ascii_alphanumeric(#[trigger] s[i])
}

fn holds_word_chars_only(s: &str) -> (r: bool)
    ensures
        r == is_plain_word(s@),
{
    let v = text::chars_of(s);
    let mut i: usize = 0;
    while i < v.len()
        invariant
            v@ == s@,
            i <= v@.len(),
            forall|j: int| 0 <= j < i ==> text::is_ascii_alphanumeric(#[trigger] s@[j]),
        decreases v@.len() - i,
    {
        if !text::is_plain_char(v[i]) {
            assert(!text::is_ascii_alphanumeric(s@[i as int]));
            return false;
        }
        i = i + 1;
    }
    true
}

/// Whether a keyword stands at a position with no ASCII letter or digit right
/// before or right after it.
pub open spec fn stands_alone_at(s: Seq<char>, keyword: Seq<char>, i: int) -> bool {
    &&& text::stands_at(s, keyword, i)
    &&& !(i > 0 && text::is_ascii_alphanumeric(s[i - 1]))
    &&& !(i + keyword.len() < s.len() && text::is_ascii_alphanumeric(s[i + keyword.len()]))
}

/// Whether a keyword stands somewhere as a word of its own.
pub open spec fn stands_alone(s: Seq<char>, keyword: Seq<char>) -> bool {
    exists|i: int| #[trigger] stands_alone_at(s, keyword, i)
}

/// Whether a keyword stands as a word of its own at one of the places at which
/// it is found one after the other, from a position on: the search goes on
/// behind each place.
pub open spec fn stands_alone_from(s: Seq<char>, keyword: Seq<char>, from: int) -> bool
    decreases s.len() + 1 - from,
{
    if from < 0 || from > s.len() {
        false
    } else if !text::stands_at(s, keyword, from) {
        stands_alone_from(s, keyword, from + 1)
    } else {
        stands_alone_at(s, keyword, from) || stands_alone_from(
            s,
            keyword,
            if keyword.len() == 0 {
                from + 1
            } else {
                from + keyword.len()
            },
        )
    }
}

/// A keyword of letters and digits is found wherever it stands as a word of its
/// own: places that overlap touch a letter or a digit.
proof fn lemma_words_do_not_overlap(s: Seq<char>, keyword: Seq<char>, from: int)
    requires
        keyword.len() > 0,
        is_plain_word(keyword),
        0 <= from,
    ensures
        stands_alone_from(s, keyword, from) == exists|i: int|
            i >= from && #[trigger] stands_alone_at(s, keyword, i),
    decreases s.len() + 1 - from,
{
    if from > s.len() {
    } else if !text::stands_at(s, keyword, from) {
        lemma_words_do_not_overlap(s, keyword, from + 1);
    } else if !stands_alone_at(s, keyword, from) {
        let behind = from + keyword.len();
        lemma_words_do_not_overlap(s, keyword, behind);
        assert forall|i: int| from <= i < behind implies !#[trigger] stands_alone_at(
            s,
            keyword,
            i,
        ) by {
            if i > from {
                assert(s[i - 1] == keyword[i - 1 - from]);
            }
        }
    }
}

/// Whether a keyword is found somewhere as a word of its own.
pub fn contains_ascii_keyword_with_boundary(s: &str, keyword: &str) -> (r: bool)
    ensures
        r == stands_alone_from(s@, keyword@, 0),
{
    let v = text::chars_of(s);
    let k = text::chars_of(keyword);
    let mut i: usize = 0;
    while i < v.len()
        invariant
            v@ == s@,
            k@ == keyword@,
            i <= v@.len(),
            stands_alone_from(s@, keyword@, 0) == stands_alone_from(s@, keyword@, i as int),
        decreases v@.len() - i,
    {
        if k.len() <= v.len() - i && text::stands_at_index(&v, &k, i) {
            let before = i > 0 && text::is_plain_char(v[i - 1]);
            let end: usize = i + k.len();
            let after = end < v.len() && text::is_plain_char(v[end]);
            if !before && !after {
                return true;
            }
            i = if k.len() == 0 {
                i + 1
            } else {
                end
            };
        } else {
            i = i + 1;
        }
    }
    if k.len() > 0 {
        assert(!text::stands_at(s@, keyword@, i as int));
        assert(!stands_alone_from(s@, keyword@, i + 1));
        return false;
    }
    let before = i > 0 && text::is_plain_char(v[i - 1]);
    assert(s@.subrange(i as int, i as int) =~= keyword@);
    assert(text::stands_at(s@, keyword@, i as int));
    assert(!stands_alone_from(s@, keyword@, i + 1));
    !before
}

/// Whether a text speaks of a keyword: one of letters and digits as a word of
/// its own, any other anywhere.
pub open spec fn speaks_of(s: Seq<char>, keyword: Seq<char>) -> bool {
    keyword.len() > 0 && if is_plain_word(keyword) {
        stands_alone(s, keyword)
    } else {
        text::contains_text(s, keyword)
    }
}

/// Whether a text speaks of one of the keywords.
pub open spec fn speaks_of_one(s: Seq<char>, keywords: Seq<String>) -> bool {
    exists|i: int| 0 <= i < keywords.len() && speaks_of(s, (#[trigger] keywords[i])@)
}

/// Whether a text speaks of a keyword.
pub fn keyword_matches(s: &str, keyword: &str) -> (r: bool)
    ensures
        r == speaks_of(s@, keyword@),
{
    if keyword.is_empty() {
        return false;
    }
    if holds_word_chars_only(keyword) {
        proof {
            lemma_words_do_not_overlap(s@, keyword@, 0);
        }
        return contains_ascii_keyword_with_boundary(s, keyword);
    }
    text::contains(s, keyword)
}

/// Whether a text speaks of one of the keywords.
pub fn matches_keywords(s: &str, keywords: &Vec<String>) -> (r: bool)
    ensures
        r == speaks_of_one(s@, keywords@),
{
    let mut i: usize = 0;
    while i < keywords.len()
        invariant
            i <= keywords@.len(),
            forall|j: int| 0 <= j < i ==> !speaks_of(s@, (#[trigger] keywords@[j])@),
        decreases keywords@.len() - i,
    {
        if keyword_matches(s, keywords[i].as_str()) {
            return true;
        }
        i = i + 1;
    }
    false
}

/// Words that many names hold and that tell no application from another.
pub open spec fn generic_words() -> Seq<&'static str> {
    seq![
        "app",
        "apps",
        "group",
        "company",
        "co",
        "ltd",
        "inc",
        "corp",
        "corporation",
        "limited",
        "tech",
        "technology",
        "software",
        "network",
        "internet",
        "china",
        "beijing",
        "shanghai",
        "windows",
        "microsoft",
        "公司",
        "集团",
        "技术",
        "网络",
        "软件",
        "中国",
        "有限",
        "科技",
    ]
}

/// Whether a token tells an application from others: it is no generic word and
/// long enough for its script.
pub open spec fn is_telling(token: Seq<char>) -> bool {
    !text::among(generic_words(), token) && token.len() >= if is_plain_word(token) {
        3
    } else {
        2int
    }
}

/// Whether a token tells an application from others.
pub fn is_meaningful_keyword(token: &str) -> (r: bool)
    ensures
        r == is_telling(token@),
{
    let generic = vec![
        "app",
        "apps",
        "group",
        "company",
        "co",
        "ltd",
        "inc",
        "corp",
        "corporation",
        "limited",
        "tech",
        "technology",
        "software",
        "network",
        "internet",
        "china",
        "beijing",
        "shanghai",
        "windows",
        "microsoft",
        "公司",
        "集团",
        "技术",
        "网络",
        "软件",
        "中国",
        "有限",
        "科技",
    ];
    assert(generic@ =~= generic_words());
    let v = text::chars_of(token);
    if v.len() == 0 || text::is_among(&generic, token) {
        return false;
    }
    if holds_word_chars_only(token) {
        v.len() >= 3
    } else {
        v.len() >= 2
    }
}

/// The tokens of a search text: its runs of letters and digits in lower case.
pub open spec fn tokens_of(raw: Seq<char>) -> Seq<Seq<char>> {
    text::pieces(raw, CharSet::NotAlphanumeric).map_values(
        |part: Seq<char>| text::lowercase(text::trimmed(part, CharSet::Whitespace)),
    )
}

/// The keywords with those of the tokens added that are telling and new.
pub open spec fn with_tokens(keywords: Seq<Seq<char>>, tokens: Seq<Seq<char>>) -> Seq<Seq<char>>
    decreases tokens.len(),
{
    if tokens.len() == 0 {
        keywords
    } else {
        let before = with_tokens(keywords, tokens.drop_last());
        if is_telling(tokens.last()) && !before.contains(tokens.last()) {
            before.push(tokens.last())
        } else {
            before
        }
    }
}

/// The keywords with those of a search text added.
pub open spec fn with_text(keywords: Seq<Seq<char>>, raw: Seq<char>) -> Seq<Seq<char>> {
    if raw.len() == 0 {
        keywords
    } else {
        with_tokens(keywords, tokens_of(raw))
    }
}

pub open spec fn with_optional(keywords: Seq<Seq<char>>, raw: Option<Seq<char>>) -> Seq<Seq<char>> {
    match raw {
        Some(raw) => with_text(keywords, sanitized(raw)),
        None => keywords,
    }
}

/// The keywords of an application: those of its name, its publisher and its
/// place, in this order.
pub open spec fn keywords_of(
    app_name: Seq<char>,
    publisher: Option<Seq<char>>,
    install_location: Option<Seq<char>>,
) -> Seq<Seq<char>> {
    with_optional(
        with_optional(with_text(seq![], sanitized(app_name)), publisher),
        install_location,
    )
}

/// A list holds a text where the sequence of its texts does.
pub proof fn lemma_holds_is_contains(v: Seq<String>, s: Seq<char>)
    ensures
        holds_text(v, s) == text::texts(v).contains(s),
{
    if holds_text(v, s) {
        let i = choose|i: int| 0 <= i < v.len() && (#[trigger] v[i])@ == s;
        assert(text::texts(v)[i] == s);
    }
    if text::texts(v).contains(s) {
        let i = choose|i: int| 0 <= i < text::texts(v).len() && text::texts(v)[i] == s;
        assert(v[i]@ == s);
    }
}

fn add_keywords(raw: &str, keywords: Vec<String>) -> (r: Vec<String>)
    ensures
        text::texts(r@) == with_text(text::texts(keywords@), raw@),
{
    let mut r = keywords;
    if raw.is_empty() {
        return r;
    }
    let ghost start = text::texts(r@);
    let parts = text::split(raw, CharSet::NotAlphanumeric);
    let ghost tokens = tokens_of(raw@);
    let mut i: usize = 0;
    assert(tokens.take(0) =~= seq![]);
    while i < parts.len()
        invariant
            i <= parts@.len(),
            text::texts(r@) == with_tokens(start, tokens.take(i as int)),
        decreases parts@.len() - i,
    {
        let blank = text::trim(parts[i].as_str(), CharSet::Whitespace);
        let token = text::to_lowercase(blank.as_str());
        assert(text::texts(parts@)[i as int] == parts@[i as int]@);
        assert(tokens[i as int] == token@);
        assert(tokens.take(i + 1).drop_last() =~= tokens.take(i as int));
        proof {
            lemma_holds_is_contains(r@, token@);
            text::lemma_texts_push(r@, token);
        }
        if is_meaningful_keyword(token.as_str()) && !has_text(&r, token.as_str()) {
            r.push(token);
        }
        i = i + 1;
    }
    assert(tokens.take(i as int) =~= tokens);
    r
}

/// The keywords of an application.
pub fn build_keywords(
    app_name: &str,
    publisher: &Option<String>,
    install_location: &Option<String>,
) -> (r: Vec<String>)
    ensures
        text::texts(r@) == keywords_of(
            app_name@,
            text::view_of(*publisher),
            text::view_of(*install_location),
        ),
{
    let name = sanitize_search_text(app_name);
    let none: Vec<String> = Vec::new();
    assert(text::texts(none@) =~= seq![]);
    let mut keywords = add_keywords(name.as_str(), none);
    if let Some(publisher) = publisher {
        let raw = sanitize_search_text(publisher.as_str());
        keywords = add_keywords(raw.as_str(), keywords);
    }
    if let Some(location) = install_location {
        let raw = sanitize_search_text(location.as_str());
        keywords = add_keywords(raw.as_str(), keywords);
    }
    keywords
}

/// Whether the keywords differ from each other and each is telling.
pub open spec fn are_keywords(keywords: Seq<Seq<char>>) -> bool {
    &&& forall|i: int| 0 <= i < keywords.len() ==> is_telling(#[trigger] keywords[i])
    &&& forall|i: int, j: int|
        0 <= i < j < keywords.len() ==> #[trigger] keywords[i] != #[trigger] keywords[j]
}

proof fn lemma_with_tokens_are_keywords(keywords: Seq<Seq<char>>, tokens: Seq<Seq<char>>)
    requires
        are_keywords(keywords),
    ensures
        are_keywords(with_tokens(keywords, tokens)),
    decreases tokens.len(),
{
    if tokens.len() > 0 {
        lemma_with_tokens_are_keywords(keywords, tokens.drop_last());
    }
}

/// Whatever an application is called, its keywords differ from each other, and
/// none is a generic word or too short to tell it from others.
pub proof fn law_keywords_tell_applications_apart(
    app_name: Seq<char>,
    publisher: Option<Seq<char>>,
    install_location: Option<Seq<char>>,
)
    ensures
        are_keywords(keywords_of(app_name, publisher, install_location)),
{
    let first = with_text(seq![], sanitized(app_name));
    lemma_with_tokens_are_keywords(seq![], tokens_of(sanitized(app_name)));
    let second = with_optional(first, publisher);
    if publisher is Some {
        lemma_with_tokens_are_keywords(first, tokens_of(sanitized(publisher->0)));
    }
    if install_location is Some {
        lemma_with_tokens_are_keywords(second, tokens_of(sanitized(install_location->0)));
    }
}

} // verus!
