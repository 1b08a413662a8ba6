//! The list of applications as it is kept between two runs, and the URLs under
//! which icons are served.

#![verifier::loop_isolation(false)]

use vstd::prelude::*;

use crate::list::Queue;
use crate::models::InstalledApp;
use crate::text;
use crate::text::CharSet;

verus! {

/// The version of the stored list.
pub const SNAPSHOT_VERSION: u32 = 1;

/// The list of applications as it is stored.
#[derive(Debug)]
pub struct AppSnapshot {
    pub version: u32,
    pub apps: Vec<InstalledApp>,
}

/// The character of a hexadecimal digit.
pub open spec fn hex_digit(d: u8) -> char {
    if d < 10 {
        ((48 + d) as u8) as char
    } else {
        ((87 + d) as u8) as char
    }
}

/// Bytes in hexadecimal notation, two digits for each.
pub open spec fn hex(bytes: Seq<u8>) -> Seq<char>
    decreases bytes.len(),
{
    if bytes.len() == 0 {
        seq![]
    } else {
        hex(bytes.drop_last()).push(hex_digit(bytes.last() / 16)).push(
            hex_digit(bytes.last() % 16),
        )
    }
}

/// What a character denotes as a hexadecimal digit.
pub open spec fn hex_value(c: char) -> Option<u8> {
    if '0' <= c <= '9' {
        Some((c as u32 - 48) as u8)
    } else if 'a' <= c <= 'f' {
        Some((c as u32 - 87) as u8)
    } else if 'A' <= c <= 'F' {
        Some((c as u32 - 55) as u8)
    } else {
        None
    }
}

/// What two characters denote: a number of two hexadecimal digits, or of one
/// behind a plus sign.
pub open spec fn pair_value(a: char, b: char) -> Option<u8> {
    match (hex_value(a), hex_value(b)) {
        (Some(x), Some(y)) => Some((16 * x + y) as u8),
        (None, Some(y)) => if a == '+' {
            Some(y)
        } else {
            None
        },
        _ => None,
    }
}

/// The bytes that a text denotes, two characters for each.
pub open spec fn unhex(s: Seq<char>) -> Option<Seq<u8>>
    decreases s.len(),
{
    if s.len() == 0 {
        Some(seq![])
    } else if s.len() == 1 {
        None
    } else {
        let n = s.len();
        match (unhex(s.take(n - 2)), pair_value(s[n - 2], s[n - 1])) {
            (Some(front), Some(byte)) => Some(front.push(byte)),
            _ => None,
        }
    }
}

/// A path in the form in which it stands in a URL.
pub open spec fn encoded_icon_path(path: Seq<char>) -> Seq<char> {
    hex(vstd::utf8::encode_utf8(path))
}

/// The path that an encoded path stands for, if it stands for one.
pub open spec fn decoded_icon_path(encoded: Seq<char>) -> Option<Seq<char>> {
    let clean = text::trimmed_start(text::trimmed(encoded, CharSet::Whitespace), CharSet::One('/'));
    if clean.len() == 0 {
        None
    } else {
        match unhex(clean) {
            Some(bytes) => if vstd::utf8::valid_utf8(bytes) {
                Some(vstd::utf8::decode_utf8(bytes))
            } else {
                None
            },
            None => None,
        }
    }
}

fn hex_char(d: u8) -> (r: char)
    requires
        d < 16,
    ensures
        r == hex_digit(d),
{
    if d < 10 {
        (48 + d) as char
    } else {
        (87 + d) as char
    }
}

/// Writes a path in the form in which it stands in a URL.
pub fn encode_icon_path(icon_path: &str) -> (r: String)
    ensures
        r@ == encoded_icon_path(icon_path@),
{
    let bytes = icon_path.as_bytes();
    let n: usize = bytes.len();
    let mut r = String::new();
    let mut i: usize = 0;
    while i < n
        invariant
            n == bytes@.len(),
            i <= n,
            r@ == hex(bytes@.take(i as int)),
        decreases n - i,
    {
        let b = bytes[i];
        r.push(hex_char(b / 16));
        r.push(hex_char(b % 16));
        assert(bytes@.take(i + 1).drop_last() =~= bytes@.take(i as int));
        i = i + 1;
    }
    assert(bytes@.take(i as int) =~= bytes@);
    r
}

fn hex_number(c: char) -> (r: Option<u8>)
    ensures
        r == hex_value(c),
{
    let n: u32 = c as u32;
    if '0' <= c && c <= '9' {
        Some((n - 48) as u8)
    } else if 'a' <= c && c <= 'f' {
        Some((n - 87) as u8)
    } else if 'A' <= c && c <= 'F' {
        Some((n - 55) as u8)
    } else {
        None
    }
}

proof fn lemma_unhex_needs_every_pair(s: Seq<char>, n: int)
    requires
        0 <= n <= s.len(),
        n % 2 == s.len() % 2,
        unhex(s.take(n)) is None,
    ensures
        unhex(s) is None,
    decreases s.len() - n,
{
    if n < s.len() {
        assert(s.take(n + 2).take(n) =~= s.take(n));
        lemma_unhex_needs_every_pair(s, n + 2);
    } else {
        assert(s.take(n) =~= s);
    }
}

proof fn lemma_unhex_odd(s: Seq<char>)
    requires
        s.len() % 2 == 1,
    ensures
        unhex(s) is None,
    decreases s.len(),
{
    if s.len() > 1 {
        lemma_unhex_odd(s.take(s.len() - 2));
    }
}

/// Reads the path that an encoded path stands for.
pub fn decode_icon_path(encoded: &str) -> (r: Option<String>)
    ensures
        text::view_of(r) == decoded_icon_path(encoded@),
{
    let blank = text::trim(encoded, CharSet::Whitespace);
    let clean = text::trim_start(blank.as_str(), CharSet::One('/'));
    let v = text::chars_of(clean.as_str());
    let n: usize = v.len();
    if n == 0 {
        return None;
    }
    if n % 2 != 0 {
        proof {
            lemma_unhex_odd(v@);
        }
        return None;
    }
    let mut bytes: Vec<u8> = Vec::new();
    let mut i: usize = 0;
    assert(v@.take(0) =~= Seq::<char>::empty());
    assert(bytes@ =~= Seq::<u8>::empty());
    while i < n
        invariant
            n == v@.len(),
            n % 2 == 0,
            i % 2 == 0,
            i <= n,
            unhex(v@.take(i as int)) == Some(bytes@),
        decreases n - i,
    {
        assert(v@.take(i + 2).take(i as int) =~= v@.take(i as int));
        let a = v[i];
        let b = v[i + 1];
        let byte: u8 = match (hex_number(a), hex_number(b)) {
            (Some(x), Some(y)) => 16 * x + y,
            (None, Some(y)) => {
                if a != '+' {
                    proof {
                        lemma_unhex_needs_every_pair(v@, i + 2);
                    }
                    return None;
                }
                y
            },
            _ => {
                proof {
                    lemma_unhex_needs_every_pair(v@, i + 2);
                }
                return None;
            },
        };
        bytes.push(byte);
        i = i + 2;
    }
    assert(v@.take(i as int) =~= v@);
    match text::decode_utf8_text(bytes) {
        Ok(path) => Some(path),
        Err(_) => None,
    }
}

/// The URL under which an icon is served; none for a blank path.
pub open spec fn icon_url(path: Seq<char>) -> Seq<char> {
    if text::trimmed(path, CharSet::Whitespace).len() == 0 {
        seq![]
    } else {
        "http://viap-icon.localhost/"@ + encoded_icon_path(path)
    }
}

/// The URL under which an icon is served; none for a blank path.
pub fn icon_url_for_path(icon_path: &str) -> (r: String)
    ensures
        r@ == icon_url(icon_path@),
{
    let blank = text::trim(icon_path, CharSet::Whitespace);
    if blank.as_str().is_empty() {
        let r = String::new();
        assert(r@ =~= icon_url(icon_path@));
        return r;
    }
    let mut r = "http://viap-icon.localhost/".to_owned();
    let encoded = encode_icon_path(icon_path);
    r.push_str(encoded.as_str());
    r
}

/// Whether an application gets a new icon URL: it has an icon, and no URL or
/// one of an old kind.
pub open spec fn wants_icon_url(app: InstalledApp) -> bool {
    app.display_icon@.len() > 0 && (app.icon_url@.len() == 0 || text::has_prefix(
        app.icon_url@,
        "viap-icon://"@,
    ))
}

/// Whether an application has become another by getting its icon URL.
pub open spec fn is_with_icon_url(app: InstalledApp, r: InstalledApp) -> bool {
    if wants_icon_url(app) {
        r == (InstalledApp { icon_url: r.icon_url, ..app }) && r.icon_url@ == icon_url(
            app.display_icon@,
        )
    } else {
        r == app
    }
}

/// Whether all applications of a list have become others by getting their icon
/// URLs.
pub open spec fn are_with_icon_urls(apps: Seq<InstalledApp>, r: Seq<InstalledApp>) -> bool {
    r.len() == apps.len() && forall|i: int|
        0 <= i < apps.len() ==> is_with_icon_url(#[trigger] apps[i], r[i])
}

/// Gives the applications that want one an icon URL.
pub fn attach_icon_urls(apps: &mut Vec<InstalledApp>)
    ensures
        are_with_icon_urls(old(apps)@, final(apps)@),
{
    let mut taken: Vec<InstalledApp> = Vec::new();
    std::mem::swap(apps, &mut taken);
    *apps = with_icon_urls(taken);
}

fn with_icon_urls(apps: Vec<InstalledApp>) -> (r: Vec<InstalledApp>)
    ensures
        are_with_icon_urls(apps@, r@),
{
    let ghost all = apps@;
    let mut rest = Queue::of(apps);
    let mut r: Vec<InstalledApp> = Vec::new();
    assert(rest@ =~= all.skip(0));
    while rest.len() > 0
        invariant
            r@.len() + rest@.len() == all.len(),
            rest@ == all.skip(r@.len() as int),
            forall|i: int| 0 <= i < r@.len() ==> is_with_icon_url(#[trigger] all[i], r@[i]),
        decreases rest@.len(),
    {
        let ghost n = r@.len() as int;
        let app = rest.take_first();
        assert(app == all[n]);
        assert(rest@ =~= all.skip(n + 1));
        if !app.display_icon.as_str().is_empty() && (app.icon_url.as_str().is_empty()
            || text::starts_with(app.icon_url.as_str(), "viap-icon://")) {
            let url = icon_url_for_path(app.display_icon.as_str());
            r.push(InstalledApp { icon_url: url, ..app });
        } else {
            r.push(app);
        }
    }
    r
}

/// The stored applications, if the list is of the current version and not
/// empty.
pub fn load_snapshot(snapshot: AppSnapshot) -> (r: Option<Vec<InstalledApp>>)
    ensures
        match r {
            Some(apps) => snapshot.version == SNAPSHOT_VERSION && snapshot.apps@.len() > 0
                && are_with_icon_urls(snapshot.apps@, apps@),
            None => snapshot.version != SNAPSHOT_VERSION || snapshot.apps@.len() == 0,
        },
{
    if snapshot.version != SNAPSHOT_VERSION || snapshot.apps.len() == 0 {
        None
    } else {
        Some(with_icon_urls(snapshot.apps))
    }
}

/// Whether an application is stored as another: with its icon URL and without
/// the icon itself.
pub open spec fn is_stored_as(app: InstalledApp, r: InstalledApp) -> bool {
    exists|with_url: InstalledApp| #[trigger]
        is_with_icon_url(app, with_url) && r == (InstalledApp {
            icon_base64: r.icon_base64,
            ..with_url
        }) && r.icon_base64@.len() == 0
}

/// The list as it is stored.
pub fn save_snapshot(apps: &Vec<InstalledApp>) -> (r: AppSnapshot)
    ensures
        r.version == SNAPSHOT_VERSION,
        r.apps@.len() == apps@.len(),
        forall|i: int| 0 <= i < apps@.len() ==> is_stored_as(#[trigger] apps@[i], r.apps@[i]),
{
    let mut copies: Vec<InstalledApp> = Vec::new();
    let mut i: usize = 0;
    while i < apps.len()
        invariant
            i <= apps@.len(),
            copies@ == apps@.take(i as int),
        decreases apps@.len() - i,
    {
        copies.push(apps[i].clone());
        i = i + 1;
        assert(apps@.take(i as int) =~= apps@.take(i - 1).push(apps@[i - 1]));
    }
    assert(apps@.take(i as int) =~= apps@);
    let mut rest = Queue::of(with_icon_urls(copies));
    let ghost with_urls = rest@;
    let mut stored: Vec<InstalledApp> = Vec::new();
    assert(rest@ =~= with_urls.skip(0));
    while rest.len() > 0
        invariant
            stored@.len() + rest@.len() == with_urls.len(),
            rest@ == with_urls.skip(stored@.len() as int),
            are_with_icon_urls(apps@, with_urls),
            forall|i: int| 0 <= i < stored@.len() ==> is_stored_as(#[trigger] apps@[i], stored@[i]),
        decreases rest@.len(),
    {
        let ghost n = stored@.len() as int;
        let app = rest.take_first();
        assert(app == with_urls[n]);
        assert(rest@ =~= with_urls.skip(n + 1));
        assert(is_with_icon_url(apps@[n], with_urls[n]));
        stored.push(InstalledApp { icon_base64: String::new(), ..app });
        assert(is_stored_as(apps@[n], stored@[n]));
    }
    AppSnapshot { version: SNAPSHOT_VERSION, apps: stored }
}

proof fn lemma_unhex_hex(bytes: Seq<u8>)
    ensures
        unhex(hex(bytes)) == Some(bytes),
        hex(bytes).len() == 2 * bytes.len(),
        forall|i: int|
            0 <= i < hex(bytes).len() ==> hex_value(#[trigger] hex(bytes)[i]) is Some,
    decreases bytes.len(),
{
    if bytes.len() > 0 {
        let front = bytes.drop_last();
        let b = bytes.last();
        lemma_unhex_hex(front);
        let s = hex(bytes);
        assert(s.take(s.len() - 2) =~= hex(front));
        assert(hex_value(hex_digit(b / 16)) == Some((b / 16) as u8));
        assert(hex_value(hex_digit(b % 16)) == Some((b % 16) as u8));
        assert(front.push(b) =~= bytes);
    } else {
        assert(bytes =~= Seq::<u8>::empty());
    }
}

/// Reading an encoded path gives back the path.
pub proof fn law_icon_path_round_trip(path: Seq<char>)
    requires
        path.len() > 0,
    ensures
        decoded_icon_path(encoded_icon_path(path)) == Some(path),
{
    let bytes = vstd::utf8::encode_utf8(path);
    let s = hex(bytes);
    lemma_unhex_hex(bytes);
    vstd::utf8::encode_utf8_valid_utf8(path);
    vstd::utf8::encode_utf8_decode_utf8(path);
    vstd::utf8::encode_utf8_first_scalar(path);
    assert(bytes.len() > 0);
    assert(hex_value(s[0]) is Some);
    assert(hex_value(s.last()) is Some);
    assert(text::trimmed_start(s, CharSet::Whitespace) == s);
    assert(text::trimmed_end(s, CharSet::Whitespace) == s);
    assert(text::trimmed_start(s, CharSet::One('/')) == s);
}

} // verus!
