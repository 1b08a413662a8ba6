//! What is promised of commands: what program and which arguments they name,
//! when they are run and when a run has succeeded; and which packages of the
//! store an application may be.

use vstd::prelude::*;

use super::appx::{
    compared_name, has_full_name, is_named_like, matching, package_at, part_behind_packages,
    AppxPackage,
};
use super::command_line::{arg_scan, args_in, existing_words, names_nothing, program_and_args};
use super::launch::{
    is_named_by_path, launch_of, quoted_args, run_failure, script_of, LaunchView, Rights, RunEnd,
};
use super::streaming::{notice_code, skips_filesystem};
use crate::list::holds_text;
use crate::text;
use crate::text::CharSet;

verus! {

/// Whether a text holds neither blanks nor quotes.
pub open spec fn is_one_word(s: Seq<char>) -> bool {
    s.len() > 0 && forall|i: int|
        0 <= i < s.len() ==> #[trigger] s[i] != ' ' && s[i] != '\t' && s[i] != '"'
}

/// Whether a text holds no quotes.
pub open spec fn is_unquoted(s: Seq<char>) -> bool {
    s.len() > 0 && forall|i: int| 0 <= i < s.len() ==> #[trigger] s[i] != '"'
}

proof fn lemma_word_is_read_on(a: Seq<char>, w: Seq<char>)
    requires
        forall|i: int| 0 <= i < w.len() ==> #[trigger] w[i] != '"',
        arg_scan(a).quoted || forall|i: int|
            0 <= i < w.len() ==> #[trigger] w[i] != ' ' && w[i] != '\t',
    ensures
        arg_scan(a + w).args == arg_scan(a).args,
        arg_scan(a + w).current == arg_scan(a).current + w,
        arg_scan(a + w).quoted == arg_scan(a).quoted,
    decreases w.len(),
{
    if w.len() == 0 {
        assert(a + w =~= a);
        assert(arg_scan(a).current + w =~= arg_scan(a).current);
    } else {
        let front = w.drop_last();
        assert forall|i: int| 0 <= i < front.len() implies #[trigger] front[i] == w[i] by {}
        lemma_word_is_read_on(a, front);
        assert((a + w).drop_last() =~= a + front);
        assert((a + w).last() == w[w.len() - 1]);
        assert((arg_scan(a).current + front).push(w.last()) =~= arg_scan(a).current + w);
    }
}

/// Arguments are separated by blanks: a word behind a blank is one more.
pub proof fn law_word_is_an_argument(a: Seq<char>, w: Seq<char>)
    requires
        !arg_scan(a).quoted,
        is_one_word(w),
    ensures
        args_in(w) == seq![w],
        args_in(a + seq![' '] + w) == args_in(a).push(w),
        !arg_scan(a + seq![' '] + w).quoted,
{
    let none = Seq::<char>::empty();
    lemma_word_is_read_on(none, w);
    assert(none + w =~= w);
    assert(arg_scan(none).current + w =~= w);
    assert(Seq::<Seq<char>>::empty().push(w) =~= seq![w]);
    let b = a + seq![' '];
    assert(b.drop_last() =~= a);
    lemma_word_is_read_on(b, w);
    assert(arg_scan(b).current =~= none);
    assert(arg_scan(b).current + w =~= w);
    assert(arg_scan(b).args == args_in(a));
}

/// What stands in quotes behind a blank is one argument, with its blanks.
pub proof fn law_quoted_text_is_an_argument(a: Seq<char>, w: Seq<char>)
    requires
        !arg_scan(a).quoted,
        is_unquoted(w),
    ensures
        args_in(a + seq![' '] + (seq!['"'] + w + seq!['"'])) == args_in(a).push(w),
{
    let b = a + seq![' '];
    assert(b.drop_last() =~= a);
    assert(arg_scan(b).current =~= Seq::<char>::empty());
    assert(arg_scan(b).args == args_in(a));
    let c = b.push('"');
    assert(c.drop_last() =~= b);
    lemma_word_is_read_on(c, w);
    assert(arg_scan(c).current + w =~= w);
    let d = (c + w).push('"');
    assert(d.drop_last() =~= c + w);
    assert(d =~= a + seq![' '] + (seq!['"'] + w + seq!['"']));
}

/// Of a command without quotes as many first words as possible make the
/// program: together they exist, and no more of them do.
pub proof fn law_longest_existing_run(words: Seq<Seq<char>>, present: Seq<String>, n: nat)
    requires
        n <= words.len(),
    ensures
        ({
            let k = existing_words(words, present, n);
            &&& k <= n
            &&& k > 0 ==> holds_text(present, text::joined(words.take(k as int), " "@))
            &&& forall|m: int|
                k < m <= n ==> !holds_text(
                    present,
                    #[trigger] text::joined(words.take(m), " "@),
                )
        }),
    decreases n,
{
    if n > 0 && !holds_text(present, text::joined(words.take(n as int), " "@)) {
        law_longest_existing_run(words, present, (n - 1) as nat);
    }
}

proof fn lemma_first_quote(program: Seq<char>, behind: Seq<char>, from: int)
    requires
        forall|i: int| 0 <= i < program.len() ==> #[trigger] program[i] != '"',
        0 <= from <= program.len(),
    ensures
        text::index_of(program + seq!['"'] + behind, "\""@, from) == Some(program.len() as int),
    decreases program.len() - from,
{
    reveal_strlit("\"");
    let s = program + seq!['"'] + behind;
    if from < program.len() {
        assert(s[from] == program[from]);
        assert(s.subrange(from, from + 1)[0] == program[from]);
        assert("\""@[0] == '"');
        assert(!text::stands_at(s, "\""@, from));
        lemma_first_quote(program, behind, from + 1);
    } else {
        assert(s.subrange(from, from + 1) =~= "\""@);
    }
}

/// Of a command in quotes what stands between the first two quotes is the
/// program, whether or not it exists, and what follows are the arguments.
pub proof fn law_quoted_program(program: Seq<char>, behind: Seq<char>, present: Seq<String>)
    requires
        forall|i: int| 0 <= i < program.len() ==> #[trigger] program[i] != '"',
        behind.len() == 0 || !text::is_whitespace_char(behind.last()),
    ensures
        program_and_args(seq!['"'] + program + seq!['"'] + behind, present) == Some(
            (
                text::trimmed(program, CharSet::Whitespace),
                args_in(text::trimmed(behind, CharSet::Whitespace)),
            ),
        ),
{
    let cmd = seq!['"'] + program + seq!['"'] + behind;
    assert(cmd[0] == '"');
    assert(cmd.last() == if behind.len() == 0 {
        '"'
    } else {
        behind.last()
    });
    assert(text::trimmed(cmd, CharSet::Whitespace) == cmd);
    let rest = cmd.drop_first();
    assert(rest =~= program + seq!['"'] + behind);
    lemma_first_quote(program, behind, 0);
    assert(rest.take(program.len() as int) =~= program);
    assert(rest.skip(program.len() as int + 1) =~= behind);
}

/// A command whose program is not named by its path is run as it is, and so is
/// one whose program exists; a program that is named by its path and does not
/// exist is not run, and neither is a blank command.
pub proof fn law_which_commands_are_run(
    command: Seq<char>,
    present: Seq<String>,
    program: Seq<char>,
    args: Seq<Seq<char>>,
)
    requires
        program_and_args(text::trimmed(command, CharSet::Whitespace), present) == Some(
            (program, args),
        ),
        text::trimmed(command, CharSet::Whitespace).len() > 0,
        !names_nothing(program),
    ensures
        holds_text(present, program) ==> launch_of(command, present) == LaunchView::Run(
            program,
            args,
        ),
        !program.contains('\\') && !program.contains(':') ==> launch_of(command, present)
            == LaunchView::Run(program, args),
        is_named_by_path(program) && !holds_text(present, program) ==> launch_of(command, present)
            is Refused,
{
}

/// Nothing is run for a blank command.
pub proof fn law_blank_command_is_not_run(command: Seq<char>, present: Seq<String>)
    requires
        text::trimmed(command, CharSet::Whitespace).len() == 0,
    ensures
        launch_of(command, present) is Refused,
{
}

/// A run has succeeded where the program ended well, and where it asks for a
/// restart; any other end is a failure, and so is a program that did not start.
pub proof fn law_when_a_run_has_succeeded(rights: Rights, code: Option<i32>, reason: String)
    ensures
        run_failure(rights, RunEnd::Exited { success: true, code }) is None,
        run_failure(rights, RunEnd::Exited { success: false, code: Some(3010) }) is None,
        code != Some(3010i32) ==> run_failure(rights, RunEnd::Exited { success: false, code })
            is Some,
        run_failure(rights, RunEnd::NotStarted(reason)) is Some,
        run_failure(rights, RunEnd::NotAwaited(reason)) is Some,
{
}

/// The script that runs a program with more rights names it, and every argument,
/// between quotes in which nothing ends the quotes.
pub proof fn law_script_names_the_program(
    program: Seq<char>,
    args: Seq<Seq<char>>,
    dir: Option<Seq<char>>,
)
    ensures
        text::has_prefix(
            script_of(program, args, dir),
            "$ErrorActionPreference='Stop'; $p=Start-Process -FilePath '"@
                + super::launch::escaped(program) + "'"@,
        ),
        quoted_args(args).len() == args.len(),
        forall|i: int|
            0 <= i < args.len() ==> #[trigger] quoted_args(args)[i] == "'"@
                + super::launch::escaped(args[i]) + "'"@,
{
    let head = "$ErrorActionPreference='Stop'; $p=Start-Process -FilePath '"@
        + super::launch::escaped(program) + "'"@;
    let script = script_of(program, args, dir);
    assert(script.subrange(0, head.len() as int) =~= head);
}

/// The package in which a path lies is named by the part behind the folder of
/// all packages; the first such folder counts.
pub proof fn law_package_of_a_place(parts: Seq<Seq<char>>, from: int, at: int)
    requires
        0 <= from <= at,
        at + 1 < parts.len(),
        text::ascii_lowercase(parts[at]) == text::ascii_lowercase("WindowsApps"@),
        forall|i: int|
            from <= i < at ==> text::ascii_lowercase(#[trigger] parts[i]) != text::ascii_lowercase(
                "WindowsApps"@,
            ),
    ensures
        part_behind_packages(parts, from) == Some(parts[at + 1]),
    decreases at - from,
{
    if from < at {
        assert(text::ascii_lowercase(parts[from]) != text::ascii_lowercase("WindowsApps"@));
        law_package_of_a_place(parts, from + 1, at);
    }
}

/// The package in whose folder an application lies is the one it may be; only
/// where no installed package is called so, names decide.
pub proof fn law_place_decides_before_the_name(
    packages: Seq<AppxPackage>,
    app_name: Seq<char>,
    location: Seq<char>,
    name: Seq<char>,
    i: int,
)
    requires
        package_at(location) == Some(name),
        0 <= i < packages.len(),
        text::ascii_lowercase(packages[i].package_full_name@) == text::ascii_lowercase(name),
    ensures
        matching(packages, app_name, Some(location)).contains(packages[i]),
        forall|p: AppxPackage| #[trigger]
            matching(packages, app_name, Some(location)).contains(p) ==> text::ascii_lowercase(
                p.package_full_name@,
            ) == text::ascii_lowercase(name),
{
    let keeps = has_full_name(name);
    let found = packages.filter(keeps);
    packages.lemma_filter_contains(keeps, i);
    let k = choose|k: int| 0 <= k < found.len() && found[k] == packages[i];
    assert(found.len() > 0);
    assert forall|p: AppxPackage| #[trigger] found.contains(p) implies text::ascii_lowercase(
        p.package_full_name@,
    ) == text::ascii_lowercase(name) by {
        let j = choose|j: int| 0 <= j < found.len() && found[j] == p;
        packages.lemma_filter_pred(keeps, j);
    }
}

/// Without a place, exactly the packages are taken whose name and the
/// application's contain each other; a name of fewer than three letters and
/// digits gives none.
pub proof fn law_packages_by_name(packages: Seq<AppxPackage>, app_name: Seq<char>, i: int)
    requires
        0 <= i < packages.len(),
    ensures
        compared_name(app_name).len() < 3 ==> matching(packages, app_name, None).len() == 0,
        compared_name(app_name).len() >= 3 && compared_name(packages[i].name@).len() > 0 && (
        text::contains_text(compared_name(packages[i].name@), compared_name(app_name))
            || text::contains_text(compared_name(app_name), compared_name(packages[i].name@)))
            ==> matching(packages, app_name, None).contains(packages[i]),
{
    let keeps = is_named_like(compared_name(app_name));
    if keeps(packages[i]) {
        packages.lemma_filter_contains(keeps, i);
    }
}

/// The file system is searched exactly where fewer than 1000 applications are
/// known and the machine has run for a minute; the user is told of a search that
/// is put off only at the start.
pub proof fn law_when_the_file_system_is_searched(count: nat, uptime: u64)
    ensures
        skips_filesystem(count, uptime) <==> count >= 1000
            || uptime < 60,
        notice_code(false, count, uptime) is None,
        uptime < 60 ==> notice_code(true, count, uptime) == Some(
            "STARTUP_FILESYSTEM_SCAN_DEFERRED"@,
        ),
        uptime >= 60 && count < 1000 ==> notice_code(
            true,
            count,
            uptime,
        ) == Some("NON_SYSTEM_DRIVES_SCAN_DEFERRED"@),
{
}

} // verus!
