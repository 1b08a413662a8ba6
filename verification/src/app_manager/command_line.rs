//! Command lines of uninstallers: which program they name, with which
//! arguments, and how it is run.

#![verifier::loop_isolation(false)]

use vstd::prelude::*;

use super::keywords::{normalize_windows_path, windows_path};
use super::locate::{entry_head, shrinking, shrinking_texts};
use crate::list::{has_text, holds_text};
use crate::text;
use crate::text::CharSet;

verus! {

/// How far arguments have been read.
#[verifier::ext_equal]
pub struct ArgScan {
    pub args: Seq<Seq<char>>,
    pub current: Seq<char>,
    pub quoted: bool,
}

/// The arguments read so far; a quote opens and closes a part in which blanks
/// do not separate, and empty arguments are dropped.
pub open spec fn arg_scan(s: Seq<char>) -> ArgScan
    decreases s.len(),
{
    if s.len() == 0 {
        ArgScan { args: seq![], current: seq![], quoted: false }
    } else {
        let before = arg_scan(s.drop_last());
        let c = s.last();
        if c == '"' {
            ArgScan { quoted: !before.quoted, ..before }
        } else if (c == ' ' || c == '\t') && !before.quoted {
            if before.current.len() > 0 {
                ArgScan {
                    args: before.args.push(before.current),
                    current: seq![],
                    quoted: before.quoted,
                }
            } else {
                before
            }
        } else {
            ArgScan { current: before.current.push(c), ..before }
        }
    }
}

/// The arguments that a text holds.
pub open spec fn args_in(s: Seq<char>) -> Seq<Seq<char>> {
    let end = arg_scan(s);
    if end.current.len() > 0 {
        end.args.push(end.current)
    } else {
        end.args
    }
}

/// Splits a text into arguments.
pub fn split_command_args(input: &str) -> (r: Vec<String>)
    ensures
        text::texts(r@) == args_in(input@),
{
    let v = text::chars_of(input);
    let mut args: Vec<String> = Vec::new();
    let mut current = String::new();
    let mut quoted = false;
    let mut i: usize = 0;
    assert(text::texts(args@) =~= seq![]);
    assert(current@ =~= seq![]);
    while i < v.len()
        invariant
            v@ == input@,
            i <= v@.len(),
            arg_scan(input@.take(i as int)) == (ArgScan {
                args: text::texts(args@),
                current: current@,
                quoted,
            }),
        decreases v@.len() - i,
    {
        let c = v[i];
        assert(input@.take(i + 1).drop_last() =~= input@.take(i as int));
        if c == '"' {
            quoted = !quoted;
        } else if (c == ' ' || c == '\t') && !quoted {
            if !current.as_str().is_empty() {
                proof {
                    text::lemma_texts_push(args@, current);
                }
                args.push(current);
                current = String::new();
                assert(current@ =~= seq![]);
            }
        } else {
            current.push(c);
        }
        i = i + 1;
    }
    assert(input@.take(i as int) =~= input@);
    if !current.as_str().is_empty() {
        proof {
            text::lemma_texts_push(args@, current);
        }
        args.push(current);
    }
    args
}

/// Of the first `n` words, how many name a path that exists, as many as
/// possible; none where no number of them does.
pub open spec fn existing_words(words: Seq<Seq<char>>, present: Seq<String>, n: nat) -> nat
    decreases n,
{
    if n == 0 {
        0
    } else if holds_text(present, text::joined(words.take(n as int), " "@)) {
        n
    } else {
        existing_words(words, present, (n - 1) as nat)
    }
}

/// What a command in quotes names: the text between the first two quotes, and
/// what follows them. The text starts behind the first quote.
pub open spec fn quoted_part(rest: Seq<char>) -> Option<(Seq<char>, Seq<char>)> {
    match text::index_of(rest, "\""@, 0) {
        Some(end) => Some((rest.take(end), rest.skip(end + 1))),
        None => None,
    }
}

/// The program and the arguments of a command. Of a command without quotes the
/// longest run of first words that names an existing path is the program;
/// where there is none, the first word is. `present` holds the paths that
/// exist, of those that the command may name.
pub open spec fn program_and_args(command: Seq<char>, present: Seq<String>) -> Option<
    (Seq<char>, Seq<Seq<char>>),
> {
    let cmd = text::trimmed(command, CharSet::Whitespace);
    if cmd.len() == 0 {
        None
    } else if cmd[0] == '"' {
        match quoted_part(cmd.drop_first()) {
            Some((program, args)) => Some(
                (
                    text::trimmed(program, CharSet::Whitespace),
                    args_in(text::trimmed(args, CharSet::Whitespace)),
                ),
            ),
            None => None,
        }
    } else {
        let words = text::words(cmd);
        let n = existing_words(words, present, words.len());
        if n > 0 {
            Some((text::joined(words.take(n as int), " "@), words.skip(n as int)))
        } else {
            Some((words[0], words.skip(1)))
        }
    }
}

/// The paths that a command may name, of which it is asked whether they exist:
/// the program in quotes, or the first words from all of them down to one.
pub open spec fn candidates(command: Seq<char>) -> Seq<Seq<char>> {
    let cmd = text::trimmed(command, CharSet::Whitespace);
    if cmd.len() == 0 {
        seq![]
    } else if cmd[0] == '"' {
        match quoted_part(cmd.drop_first()) {
            Some((program, args)) => seq![text::trimmed(program, CharSet::Whitespace)],
            None => seq![],
        }
    } else {
        shrinking(text::words(cmd))
    }
}

/// The text between the first two quotes and what follows them.
fn take_quoted(cmd: &str) -> (r: Option<(String, String)>)
    requires
        cmd@.len() > 0,
    ensures
        match r {
            Some((program, args)) => quoted_part(cmd@.drop_first()) == Some((program@, args@)),
            None => quoted_part(cmd@.drop_first()) is None,
        },
{
    proof {
        reveal_strlit("\"");
    }
    let v = text::chars_of(cmd);
    let rest = text::string_of(&v, 1, v.len());
    assert(rest@ =~= cmd@.drop_first());
    let w = text::chars_of(rest.as_str());
    match text::position(rest.as_str(), "\"") {
        Some(end) => {
            let program = text::string_of(&w, 0, end);
            let args = text::string_of(&w, end + 1, w.len());
            assert(program@ =~= rest@.take(end as int));
            assert(args@ =~= rest@.skip(end + 1));
            Some((program, args))
        },
        None => None,
    }
}

/// The paths that a command may name.
pub fn program_candidates(command: &str) -> (r: Vec<String>)
    ensures
        text::texts(r@) == candidates(command@),
{
    let cmd = text::trim(command, CharSet::Whitespace);
    let v = text::chars_of(cmd.as_str());
    if v.len() == 0 {
        let none: Vec<String> = Vec::new();
        assert(text::texts(none@) =~= seq![]);
        return none;
    }
    if v[0] == '"' {
        match take_quoted(cmd.as_str()) {
            Some((program, args)) => {
                let one = vec![text::trim(program.as_str(), CharSet::Whitespace)];
                assert(text::texts(one@) =~= candidates(command@));
                return one;
            },
            None => {
                let none: Vec<String> = Vec::new();
                assert(text::texts(none@) =~= seq![]);
                return none;
            },
        }
    }
    shrinking_texts(text::split_words(cmd.as_str()))
}

/// Copies the items from one position up to another.
fn copy_range(v: &Vec<String>, from: usize, to: usize) -> (r: Vec<String>)
    requires
        from <= to <= v@.len(),
    ensures
        text::texts(r@) == text::texts(v@).subrange(from as int, to as int),
{
    let mut r: Vec<String> = Vec::new();
    let mut i: usize = from;
    assert(text::texts(r@) =~= text::texts(v@).subrange(from as int, from as int));
    while i < to
        invariant
            from <= i <= to <= v@.len(),
            text::texts(r@) == text::texts(v@).subrange(from as int, i as int),
        decreases to - i,
    {
        let s = v[i].clone();
        proof {
            text::lemma_texts_push(r@, s);
        }
        r.push(s);
        i = i + 1;
        assert(text::texts(v@).subrange(from as int, i as int) =~= text::texts(v@).subrange(
            from as int,
            i - 1,
        ).push(v@[i - 1]@));
    }
    r
}

/// How many of the first words name a path that exists, as many as possible.
fn count_existing_words(words: &Vec<String>, present: &Vec<String>) -> (r: usize)
    ensures
        r == existing_words(text::texts(words@), present@, words@.len()),
        r <= words@.len(),
{
    let mut n: usize = words.len();
    while n > 0
        invariant
            n <= words@.len(),
            existing_words(text::texts(words@), present@, words@.len()) == existing_words(
                text::texts(words@),
                present@,
                n as nat,
            ),
        decreases n,
    {
        let first = copy_range(words, 0, n);
        assert(text::texts(words@).subrange(0, n as int) =~= text::texts(words@).take(n as int));
        let candidate = text::join(&first, " ");
        if has_text(present, candidate.as_str()) {
            return n;
        }
        n = n - 1;
    }
    0
}

pub open spec fn parsed_view(r: Option<(String, Vec<String>)>) -> Option<
    (Seq<char>, Seq<Seq<char>>),
> {
    match r {
        Some((program, args)) => Some((program@, text::texts(args@))),
        None => None,
    }
}

/// The program and the arguments of a command.
pub fn parse_program_and_args(command: &str, present: &Vec<String>) -> (r: Option<
    (String, Vec<String>),
>)
    ensures
        parsed_view(r) == program_and_args(command@, present@),
{
    let cmd = text::trim(command, CharSet::Whitespace);
    let v = text::chars_of(cmd.as_str());
    if v.len() == 0 {
        return None;
    }
    if v[0] == '"' {
        return match take_quoted(cmd.as_str()) {
            Some((program, args)) => {
                let rest = text::trim(args.as_str(), CharSet::Whitespace);
                Some(
                    (
                        text::trim(program.as_str(), CharSet::Whitespace),
                        split_command_args(rest.as_str()),
                    ),
                )
            },
            None => None,
        };
    }
    let words = text::split_words(cmd.as_str());
    proof {
        text::lemma_trimmed_has_word(command@);
        assert(text::texts(words@).len() == words@.len());
    }
    let n = count_existing_words(&words, present);
    if n > 0 {
        let first = copy_range(&words, 0, n);
        let args = copy_range(&words, n, words.len());
        assert(text::texts(words@).subrange(0, n as int) =~= text::texts(words@).take(n as int));
        assert(text::texts(words@).subrange(n as int, words@.len() as int) =~= text::texts(
            words@,
        ).skip(n as int));
        return Some((text::join(&first, " "), args));
    }
    let args = copy_range(&words, 1, words.len());
    assert(text::texts(words@).subrange(1, words@.len() as int) =~= text::texts(words@).skip(1));
    Some((words[0].clone(), args))
}

/// A program's name without the quotes and blanks around it.
pub open spec fn bare_program(program: Seq<char>) -> Seq<char> {
    text::trimmed(
        text::trimmed(text::trimmed(program, CharSet::Whitespace), CharSet::One('"')),
        CharSet::Whitespace,
    )
}

/// Whether a text names no program: nothing is left of it, or slashes only.
pub open spec fn names_nothing(program: Seq<char>) -> bool {
    let bare = bare_program(program);
    bare.len() == 0 || bare == "\\"@ || bare == "\\\\"@ || bare == "/"@
}

/// Whether a text names no program.
pub fn is_definitely_invalid_program(program: &str) -> (r: bool)
    ensures
        r == names_nothing(program@),
{
    let blank = text::trim(program, CharSet::Whitespace);
    let plain = text::trim(blank.as_str(), CharSet::One('"'));
    let bare = text::trim(plain.as_str(), CharSet::Whitespace);
    bare.as_str().is_empty() || text::same(bare.as_str(), "\\") || text::same(
        bare.as_str(),
        "\\\\",
    ) || text::same(bare.as_str(), "/")
}

/// Whether a text can be an uninstall command.
pub fn is_valid_uninstall_command(command: &str) -> (r: bool)
    ensures
        r == !names_nothing(command@),
{
    !is_definitely_invalid_program(command)
}

/// The part of an icon entry or a command, of words separated by blanks, that
/// names a path: the text in quotes, or the longest run of first words that
/// exists.
pub open spec fn existing_fragment(raw: Seq<char>, present: Seq<String>) -> Option<Seq<char>> {
    let s = text::trimmed(raw, CharSet::Whitespace);
    if s.len() == 0 {
        None
    } else if s[0] == '"' {
        match quoted_part(s.drop_first()) {
            Some((path, rest)) => Some(path),
            None => None,
        }
    } else {
        let words = text::words(s);
        let n = existing_words(words, present, words.len());
        if n > 0 {
            Some(text::joined(words.take(n as int), " "@))
        } else {
            None
        }
    }
}

/// The path that a text names.
pub fn find_existing_path_fragment(raw: &str, present: &Vec<String>) -> (r: Option<String>)
    ensures
        text::view_of(r) == existing_fragment(raw@, present@),
{
    let s = text::trim(raw, CharSet::Whitespace);
    let v = text::chars_of(s.as_str());
    if v.len() == 0 {
        return None;
    }
    if v[0] == '"' {
        return match take_quoted(s.as_str()) {
            Some((path, rest)) => Some(path),
            None => None,
        };
    }
    let words = text::split_words(s.as_str());
    assert(text::texts(words@).len() == words@.len());
    let n = count_existing_words(&words, present);
    if n > 0 {
        let first = copy_range(&words, 0, n);
        assert(text::texts(words@).subrange(0, n as int) =~= text::texts(words@).take(n as int));
        return Some(text::join(&first, " "));
    }
    None
}

/// The path that an icon entry or an uninstall command names: what follows a
/// comma is no part of it.
pub fn entry_target(raw: &str, present: &Vec<String>) -> (r: Option<String>)
    ensures
        text::view_of(r) == existing_fragment(entry_head(raw@), present@),
{
    let blank = text::trim(raw, CharSet::Whitespace);
    let parts = text::split(blank.as_str(), CharSet::One(','));
    assert(text::texts(parts@)[0] == parts@[0]@);
    let head = text::trim(parts[0].as_str(), CharSet::Whitespace);
    find_existing_path_fragment(head.as_str(), present)
}

/// The path of the program that a command names, as evidence of where the
/// application lies. A bare call of the Windows installer is none.
pub open spec fn path_hint(command: Seq<char>, present: Seq<String>) -> Option<Seq<char>> {
    match program_and_args(command, present) {
        Some((program, args)) => {
            let plain = windows_path(program);
            if plain.len() == 0 || (text::contains_text(plain, "msiexec"@) && !plain.contains(
                '\\',
            )) {
                None
            } else {
                Some(plain)
            }
        },
        None => None,
    }
}

/// The path of the program that a command names.
pub fn extract_uninstall_path_hint(command: &str, present: &Vec<String>) -> (r: Option<String>)
    ensures
        text::view_of(r) == path_hint(command@, present@),
{
    match parse_program_and_args(command, present) {
        Some((program, args)) => {
            let plain = normalize_windows_path(program.as_str());
            if plain.as_str().is_empty() || (text::contains(plain.as_str(), "msiexec")
                && !text::contains_char(plain.as_str(), '\\')) {
                None
            } else {
                Some(plain)
            }
        },
        None => None,
    }
}

} // verus!
