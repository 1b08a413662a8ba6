//! The directory that an icon entry or an uninstall command leads to.

#![verifier::loop_isolation(false)]

use vstd::prelude::*;

use super::scan_rules;
use super::scan_rules::is_container_directory;
use crate::path;
use crate::text;
use crate::text::CharSet;

verus! {

/// The text from its first ASCII letter on.
pub open spec fn from_first_letter(s: Seq<char>) -> Seq<char>
    decreases s.len(),
{
    if s.len() == 0 || text::is_ascii_letter(s[0]) {
        s
    } else {
        from_first_letter(s.drop_first())
    }
}

/// How long the path is that a command begins with: up to a quote, where there
/// is one, else up to an option.
pub open spec fn path_length(rest: Seq<char>) -> int {
    match (
        text::index_of(rest, "\""@, 0),
        text::index_of(rest, " /"@, 0),
        text::index_of(rest, " -"@, 0),
    ) {
        (Some(i), _, _) => i,
        (None, Some(i), _) => i,
        (None, None, Some(i)) => i,
        (None, None, None) => rest.len() as int,
    }
}

/// The path that a command begins with, if its first letter is that of a drive.
pub open spec fn path_in_command(raw: Seq<char>) -> Option<Seq<char>> {
    let rest = from_first_letter(
        text::trimmed(text::trimmed(raw, CharSet::Whitespace), CharSet::One('"')),
    );
    if rest.len() >= 3 && rest[1] == ':' && rest[2] == '\\' {
        Some(text::trimmed(rest.take(path_length(rest)), CharSet::Whitespace))
    } else {
        None
    }
}

/// The path that a command begins with.
pub fn command_path(raw: &str) -> (r: Option<String>)
    ensures
        text::view_of(r) == path_in_command(raw@),
{
    let blank = text::trim(raw, CharSet::Whitespace);
    let s = text::trim(blank.as_str(), CharSet::One('"'));
    let v = text::chars_of(s.as_str());
    let mut i: usize = 0;
    assert(v@.skip(0) =~= v@);
    while i < v.len() && !(('a' <= v[i] && v[i] <= 'z') || ('A' <= v[i] && v[i] <= 'Z'))
        invariant
            i <= v@.len(),
            from_first_letter(v@) == from_first_letter(v@.skip(i as int)),
        decreases v@.len() - i,
    {
        assert(v@.skip(i as int).drop_first() =~= v@.skip(i + 1));
        i = i + 1;
    }
    let rest = text::string_of(&v, i, v.len());
    assert(rest@ =~= v@.skip(i as int));
    assert(rest@ == from_first_letter(v@));
    let w = text::chars_of(rest.as_str());
    if w.len() < 3 || w[1] != ':' || w[2] != '\\' {
        return None;
    }
    proof {
        reveal_strlit("\"");
        reveal_strlit(" /");
        reveal_strlit(" -");
    }
    let end: usize = match text::position(rest.as_str(), "\"") {
        Some(i) => i,
        None => match text::position(rest.as_str(), " /") {
            Some(i) => i,
            None => match text::position(rest.as_str(), " -") {
                Some(i) => i,
                None => w.len(),
            },
        },
    };
    let path = text::string_of(&w, 0, end);
    assert(path@ =~= rest@.take(path_length(rest@)));
    Some(text::trim(path.as_str(), CharSet::Whitespace))
}

pub open spec fn shared_parts() -> Seq<&'static str> {
    seq!["\\windows\\system32", "\\windows\\syswow64", "\\common files\\"]
}

/// Whether a directory belongs to the system or to several applications.
pub fn is_shared_directory(dir: &str) -> (r: bool)
    ensures
        r == text::contains_one(shared_parts(), text::lowercase(dir@)),
{
    let parts = vec!["\\windows\\system32", "\\windows\\syswow64", "\\common files\\"];
    assert(parts@ =~= shared_parts());
    let lower = text::to_lowercase(dir);
    text::contains_any(&parts, lower.as_str())
}

/// The directory of the path in a command, if it exists and is that of an
/// application. It is absent where the path has none.
pub fn extract_dir_from_command_string(dir: &Option<String>, present: bool) -> (r: Option<String>)
    ensures
        match r {
            Some(place) => dir is Some && present && !text::contains_one(
                shared_parts(),
                text::lowercase(dir->0@),
            ) && place@ == text::trimmed_end(dir->0@, CharSet::Two('\\', '/')),
            None => dir is None || !present || text::contains_one(
                shared_parts(),
                text::lowercase(dir->0@),
            ),
        },
{
    match dir {
        Some(dir) => if is_shared_directory(dir.as_str()) || !present {
            None
        } else {
            Some(text::trim_end(dir.as_str(), CharSet::Two('\\', '/')))
        },
        None => None,
    }
}

/// What an icon entry or an uninstall command may name.
#[derive(Debug)]
pub enum NamedFiles {
    /// Nothing.
    Nothing,
    /// A file in quotes.
    Quoted(String),
    /// The first of these that exists: all words, then one word less each time.
    Words(Vec<String>),
}

/// The part of an entry before its first comma, without surrounding blanks.
pub open spec fn entry_head(raw: Seq<char>) -> Seq<char> {
    text::trimmed(
        text::pieces(text::trimmed(raw, CharSet::Whitespace), CharSet::One(','))[0],
        CharSet::Whitespace,
    )
}

/// The first words of a list, from all of them down to one, each put together
/// with blanks.
pub open spec fn shrinking(words: Seq<Seq<char>>) -> Seq<Seq<char>>
    decreases words.len(),
{
    if words.len() == 0 {
        seq![]
    } else {
        seq![text::joined(words, " "@)] + shrinking(words.drop_last())
    }
}

/// The first words of a list, from all of them down to one, each put together
/// with blanks.
pub fn shrinking_texts(words: Vec<String>) -> (r: Vec<String>)
    ensures
        text::texts(r@) == shrinking(text::texts(words@)),
{
    let mut words = words;
    let ghost all = text::texts(words@);
    let mut files: Vec<String> = Vec::new();
    assert(text::texts(files@) + shrinking(text::texts(words@)) =~= shrinking(all));
    while words.len() > 0
        invariant
            text::texts(files@) + shrinking(text::texts(words@)) == shrinking(all),
        decreases words@.len(),
    {
        let joined = text::join(&words, " ");
        let ghost before = text::texts(files@);
        let ghost whole = text::texts(words@);
        proof {
            text::lemma_texts_push(files@, joined);
        }
        files.push(joined);
        words.pop();
        assert(text::texts(words@) =~= whole.drop_last());
        assert(before.push(joined@) + shrinking(whole.drop_last()) =~= before + (seq![joined@]
            + shrinking(whole.drop_last())));
    }
    assert(text::texts(files@) + shrinking(text::texts(words@)) =~= text::texts(files@));
    files
}

/// What an icon entry or an uninstall command may name.
pub fn named_files(raw: &str) -> (r: NamedFiles)
    ensures
        match r {
            NamedFiles::Nothing => text::trimmed(raw@, CharSet::Whitespace).len() == 0,
            NamedFiles::Quoted(file) => text::trimmed(raw@, CharSet::Whitespace).len() > 0
                && entry_head(raw@).len() > 0 && entry_head(raw@)[0] == '"' && file@
                == text::trimmed(entry_head(raw@), CharSet::One('"')),
            NamedFiles::Words(files) => text::trimmed(raw@, CharSet::Whitespace).len() > 0 && !(
            entry_head(raw@).len() > 0 && entry_head(raw@)[0] == '"') && text::texts(files@)
                == shrinking(text::words(entry_head(raw@))),
        },
{
    let blank = text::trim(raw, CharSet::Whitespace);
    if blank.as_str().is_empty() {
        return NamedFiles::Nothing;
    }
    let parts = text::split(blank.as_str(), CharSet::One(','));
    assert(text::texts(parts@)[0] == parts@[0]@);
    let head = text::trim(parts[0].as_str(), CharSet::Whitespace);
    let h = text::chars_of(head.as_str());
    if h.len() > 0 && h[0] == '"' {
        return NamedFiles::Quoted(text::trim(head.as_str(), CharSet::One('"')));
    }
    let files = shrinking_texts(text::split_words(head.as_str()));
    NamedFiles::Words(files)
}

/// What is found where an entry leads.
#[derive(Debug)]
pub struct NamedFileProbe {
    /// The path that the entry names.
    pub file: String,
    pub exists: bool,
    pub is_file: bool,
    /// Whether the directory that it names is the file's home.
    pub is_home: bool,
}

/// The directory that a path names: that of a file, or the path itself.
pub open spec fn directory_named(file: Seq<char>, is_file: bool) -> Option<Seq<char>> {
    if is_file {
        path::parent(file)
    } else {
        Some(file)
    }
}

/// The directory that a path names.
pub fn named_directory(file: &str, is_file: bool) -> (r: Option<String>)
    ensures
        text::view_of(r) == directory_named(file@, is_file),
{
    if is_file {
        path::parent_of(file)
    } else {
        Some(file.to_owned())
    }
}

/// The directory that a path in a command names. A path with an extension is
/// taken for a file though it is gone.
pub fn command_directory(file: &str, is_file: bool) -> (r: Option<String>)
    ensures
        text::view_of(r) == directory_named(
            file@,
            is_file || path::last_extension(file@) is Some,
        ),
{
    let has_extension = path::last_extension_of(file).is_some();
    named_directory(file, is_file || has_extension)
}

/// The directory that an entry names.
pub open spec fn probed_directory(probe: NamedFileProbe) -> Option<Seq<char>> {
    directory_named(probe.file@, probe.is_file)
}

/// Where an entry leads.
#[derive(Debug)]
pub enum Derivation {
    Nowhere,
    /// The path in the entry, read as a command, decides.
    ReadAsCommand,
    Directory(String),
}

/// The directory that an entry leads to. A file that is gone, or that merely
/// lies somewhere, is left to the reading as a command.
pub fn derive_install_location_from_icon(probe: &NamedFileProbe) -> (r: Derivation)
    ensures
        match r {
            Derivation::ReadAsCommand => !probe.exists || (probed_directory(*probe) is Some
                && !text::contains_one(shared_parts(), text::lowercase(probed_directory(*probe)->0))
                && !scan_rules::is_container(probed_directory(*probe)->0)
                && probe.is_file && !probe.is_home),
            Derivation::Nowhere => probe.exists && (probed_directory(*probe) is None || text::contains_one(
                shared_parts(),
                text::lowercase(probed_directory(*probe)->0),
            ) || scan_rules::is_container(probed_directory(*probe)->0)),
            Derivation::Directory(dir) => probe.exists && probed_directory(*probe) is Some
                && !text::contains_one(shared_parts(), text::lowercase(probed_directory(*probe)->0))
                && !scan_rules::is_container(probed_directory(*probe)->0) && (
            !probe.is_file || probe.is_home) && dir@ == text::trimmed_end(
                probed_directory(*probe)->0,
                CharSet::Two('\\', '/'),
            ),
        },
{
    if !probe.exists {
        return Derivation::ReadAsCommand;
    }
    match named_directory(probe.file.as_str(), probe.is_file) {
        None => Derivation::Nowhere,
        Some(dir) => if is_shared_directory(dir.as_str()) || is_container_directory(
            dir.as_str(),
        ) {
            Derivation::Nowhere
        } else if probe.is_file && !probe.is_home {
            Derivation::ReadAsCommand
        } else {
            Derivation::Directory(text::trim_end(dir.as_str(), CharSet::Two('\\', '/')))
        },
    }
}

} // verus!
