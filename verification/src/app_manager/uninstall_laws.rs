//! What uninstalling promises: which commands are run for which application,
//! when it counts as gone, and which registry keys may go.

use vstd::prelude::*;

use super::command_line::names_nothing;
use super::keywords::match_text;
use super::keywords::speaks_of_one;
use super::registry::{judged_path, key_of, may_delete_key, Hive, KeyFacts};
use super::uninstall_search::{
    commands_by_name, commands_by_place, commands_in, commands_of, first_commands, has_name,
    has_place, is_program_file, is_uninstaller, plain_name, place_of_entry, uninstaller_in,
    uninstaller_position, UninstallEntry,
};
use super::uninstaller::{
    is_still_there, resolved, state_after_all, verdict, CommandOutcome, MachineFacts,
    UninstallInput,
};
use crate::path;
use crate::text;
use crate::text::CharSet;

verus! {

/// A text that neither begins nor ends with a blank or a quote and holds more
/// than two characters is a command; in quotes too.
pub proof fn law_plain_text_is_a_command(s: Seq<char>)
    requires
        s.len() > 2,
        !text::is_whitespace_char(s[0]) && s[0] != '"',
        !text::is_whitespace_char(s.last()) && s.last() != '"',
    ensures
        !names_nothing(s),
        text::trimmed(s, CharSet::Whitespace) == s,
        !names_nothing(seq!['"'] + s + seq!['"']),
{
    reveal_strlit("\\");
    reveal_strlit("\\\\");
    reveal_strlit("/");
    let quoted = seq!['"'] + s + seq!['"'];
    assert(quoted[0] == '"');
    assert(quoted.last() == '"');
    assert(text::trimmed(quoted, CharSet::Whitespace) == quoted);
    assert(quoted.drop_first() =~= s.push('"'));
    assert(s.push('"')[0] == s[0]);
    assert(text::trimmed_start(quoted, CharSet::One('"')) == text::trimmed_start(
        s.push('"'),
        CharSet::One('"'),
    ));
    assert(text::trimmed_start(s.push('"'), CharSet::One('"')) == s.push('"'));
    assert(s.push('"').drop_last() =~= s);
    assert(text::trimmed_end(s.push('"'), CharSet::One('"')) == text::trimmed_end(
        s,
        CharSet::One('"'),
    ));
    assert(text::trimmed_end(s, CharSet::One('"')) == s);
}

/// Blanks are no command.
pub proof fn law_blanks_are_no_command(s: Seq<char>)
    requires
        forall|i: int| 0 <= i < s.len() ==> text::is_whitespace_char(#[trigger] s[i]),
    ensures
        names_nothing(s),
{
    lemma_blanks_are_trimmed(s);
}

proof fn lemma_blanks_are_trimmed(s: Seq<char>)
    requires
        forall|i: int| 0 <= i < s.len() ==> text::is_whitespace_char(#[trigger] s[i]),
    ensures
        text::trimmed_start(s, CharSet::Whitespace).len() == 0,
    decreases s.len(),
{
    if s.len() > 0 {
        assert forall|i: int| 0 <= i < s.drop_first().len() implies text::is_whitespace_char(
            #[trigger] s.drop_first()[i],
        ) by {
            assert(s.drop_first()[i] == s[i + 1]);
        }
        lemma_blanks_are_trimmed(s.drop_first());
    }
}

/// Of an entry both commands are run that name a program, the silent one first;
/// one that is the same as the other but for letter case is run once.
pub proof fn law_commands_of_an_entry(quiet: Seq<char>, usual: Seq<char>)
    ensures
        ({
            let q = text::trimmed(quiet, CharSet::Whitespace);
            let u = text::trimmed(usual, CharSet::Whitespace);
            let r = commands_in(quiet, usual);
            &&& names_nothing(quiet) && names_nothing(usual) ==> r.len() == 0
            &&& !names_nothing(quiet) && names_nothing(usual) ==> r == seq![q]
            &&& names_nothing(quiet) && !names_nothing(usual) ==> r == seq![u]
            &&& !names_nothing(quiet) && !names_nothing(usual) && text::ascii_lowercase(q)
                == text::ascii_lowercase(u) ==> r == seq![q]
            &&& !names_nothing(quiet) && !names_nothing(usual) && text::ascii_lowercase(q)
                != text::ascii_lowercase(u) ==> r == seq![q, u]
        }),
{
    let q = text::trimmed(quiet, CharSet::Whitespace);
    let u = text::trimmed(usual, CharSet::Whitespace);
    let r = commands_in(quiet, usual);
    assert(seq![q].push(u) =~= seq![q, u]);
    assert(Seq::<Seq<char>>::empty().push(u) =~= seq![u]);
}

/// Whether a text is given and not blank.
pub open spec fn is_given(s: Option<String>) -> bool {
    s is Some && text::trimmed(s->0@, CharSet::Whitespace).len() > 0
}

/// Whether the input names an entry of the registry that has commands.
pub open spec fn names_an_entry(input: UninstallInput, facts: MachineFacts) -> bool {
    &&& is_given(input.registry_path)
    &&& key_of(input.registry_path->0@) is Some
    &&& facts.named_commands matches Some(commands) && (!names_nothing(commands.0@)
        || !names_nothing(commands.1@))
}

/// The commands of the entry that the input names are those that are run,
/// whatever else the input says and whatever other entries there are.
pub proof fn law_named_entry_is_used(input: UninstallInput, facts: MachineFacts)
    requires
        names_an_entry(input, facts),
    ensures
        resolved(input, facts) == Ok::<Seq<Seq<char>>, Seq<char>>(
            commands_in((facts.named_commands->0).0@, (facts.named_commands->0).1@),
        ),
        commands_in((facts.named_commands->0).0@, (facts.named_commands->0).1@).len() > 0,
{
    law_commands_of_an_entry((facts.named_commands->0).0@, (facts.named_commands->0).1@);
}

/// Whether an entry is the first of several that fits and has commands.
pub open spec fn is_first_fitting(
    entries: Seq<UninstallEntry>,
    fits: spec_fn(UninstallEntry) -> bool,
    i: int,
) -> bool {
    &&& 0 <= i < entries.len()
    &&& fits(entries[i]) && commands_of(entries[i]).len() > 0
    &&& forall|j: int|
        0 <= j < i ==> !(fits(#[trigger] entries[j]) && commands_of(entries[j]).len() > 0)
}

/// A search gives the commands of the first entry that fits and has any; where
/// none does, it gives nothing.
pub proof fn law_first_fitting_entry_is_taken(
    entries: Seq<UninstallEntry>,
    fits: spec_fn(UninstallEntry) -> bool,
)
    ensures
        forall|i: int| #[trigger]
            is_first_fitting(entries, fits, i) ==> first_commands(entries, fits) == commands_of(
                entries[i],
            ),
        (forall|j: int|
            0 <= j < entries.len() ==> !(fits(#[trigger] entries[j]) && commands_of(
                entries[j],
            ).len() > 0)) ==> first_commands(entries, fits).len() == 0,
    decreases entries.len(),
{
    if entries.len() > 0 {
        let rest = entries.drop_first();
        law_first_fitting_entry_is_taken(rest, fits);
        assert forall|i: int| #[trigger]
            is_first_fitting(entries, fits, i) implies first_commands(entries, fits)
            == commands_of(entries[i]) by {
            if i > 0 {
                assert(!(fits(entries[0]) && commands_of(entries[0]).len() > 0));
                assert(rest[i - 1] == entries[i]);
                assert forall|j: int| 0 <= j < i - 1 implies !(fits(#[trigger] rest[j])
                    && commands_of(rest[j]).len() > 0) by {
                    assert(rest[j] == entries[j + 1]);
                }
                assert(is_first_fitting(rest, fits, i - 1));
            }
        }
        if forall|j: int|
            0 <= j < entries.len() ==> !(fits(#[trigger] entries[j]) && commands_of(
                entries[j],
            ).len() > 0) {
            assert(!(fits(entries[0]) && commands_of(entries[0]).len() > 0));
            assert forall|j: int| 0 <= j < rest.len() implies !(fits(#[trigger] rest[j])
                && commands_of(rest[j]).len() > 0) by {
                assert(rest[j] == entries[j + 1]);
            }
        }
    }
}

/// Whether an entry bears a name, without regard to case and blanks around it.
pub open spec fn bears_name(entry: UninstallEntry, name: Seq<char>) -> bool {
    text::lowercase(text::trimmed(entry.display_name@, CharSet::Whitespace)) == text::lowercase(
        text::trimmed(name, CharSet::Whitespace),
    )
}

/// Whether an entry has a place, without regard to case, blanks around it and
/// backslashes at its end.
pub open spec fn has_its_place(entry: UninstallEntry, place: Seq<char>) -> bool {
    text::trimmed_end(
        text::lowercase(text::trimmed(entry.install_location@, CharSet::Whitespace)),
        CharSet::One('\\'),
    ) == text::trimmed_end(
        text::lowercase(text::trimmed(place, CharSet::Whitespace)),
        CharSet::One('\\'),
    )
}

/// Whether some entry that bears a name has commands.
pub open spec fn is_listed_by_name(entries: Seq<UninstallEntry>, name: Seq<char>) -> bool {
    text::lowercase(text::trimmed(name, CharSet::Whitespace)).len() > 0 && exists|i: int|
        0 <= i < entries.len() && bears_name(#[trigger] entries[i], name) && commands_of(
            entries[i],
        ).len() > 0
}

/// Whether some entry that has a place has commands.
pub open spec fn is_listed_by_place(entries: Seq<UninstallEntry>, place: Seq<char>) -> bool {
    text::lowercase(text::trimmed(place, CharSet::Whitespace)).len() > 0 && exists|i: int|
        0 <= i < entries.len() && has_its_place(#[trigger] entries[i], place) && commands_of(
            entries[i],
        ).len() > 0
}

/// Whether an entry is the first that bears a name and has commands.
pub open spec fn is_first_by_name(entries: Seq<UninstallEntry>, name: Seq<char>, i: int) -> bool {
    &&& 0 <= i < entries.len()
    &&& bears_name(entries[i], name) && commands_of(entries[i]).len() > 0
    &&& forall|j: int|
        0 <= j < i ==> !(bears_name(#[trigger] entries[j], name) && commands_of(entries[j]).len()
            > 0)
}

/// Whether an entry is the first that has a place and commands.
pub open spec fn is_first_by_place(entries: Seq<UninstallEntry>, place: Seq<char>, i: int) -> bool {
    &&& 0 <= i < entries.len()
    &&& has_its_place(entries[i], place) && commands_of(entries[i]).len() > 0
    &&& forall|j: int|
        0 <= j < i ==> !(has_its_place(#[trigger] entries[j], place) && commands_of(
            entries[j],
        ).len() > 0)
}

proof fn lemma_first_of_listed(
    entries: Seq<UninstallEntry>,
    fits: spec_fn(UninstallEntry) -> bool,
    i: int,
) -> (k: int)
    requires
        0 <= i < entries.len(),
        fits(entries[i]) && commands_of(entries[i]).len() > 0,
    ensures
        is_first_fitting(entries, fits, k),
    decreases i,
{
    if exists|j: int|
        0 <= j < i && fits(#[trigger] entries[j]) && commands_of(entries[j]).len() > 0 {
        let j = choose|j: int|
            0 <= j < i && fits(#[trigger] entries[j]) && commands_of(entries[j]).len() > 0;
        lemma_first_of_listed(entries, fits, j)
    } else {
        i
    }
}

/// A search by name finds commands exactly if an entry bears the name and has
/// any, and then those of the first such entry.
pub proof fn law_search_by_name(entries: Seq<UninstallEntry>, name: Seq<char>)
    ensures
        commands_by_name(name, entries).len() > 0 <==> is_listed_by_name(entries, name),
        forall|i: int|
            is_listed_by_name(entries, name) && #[trigger] is_first_by_name(entries, name, i)
                ==> commands_by_name(name, entries) == commands_of(entries[i]),
{
    let fits = has_name(plain_name(name));
    law_first_fitting_entry_is_taken(entries, fits);
    if is_listed_by_name(entries, name) {
        let i = choose|i: int|
            0 <= i < entries.len() && bears_name(#[trigger] entries[i], name) && commands_of(
                entries[i],
            ).len() > 0;
        assert(fits(entries[i]));
        let k = lemma_first_of_listed(entries, fits, i);
        assert forall|i: int| #[trigger] is_first_by_name(entries, name, i) implies
            commands_by_name(name, entries) == commands_of(entries[i]) by {
            assert(is_first_fitting(entries, fits, i));
        }
    } else if plain_name(name).len() > 0 {
        assert forall|j: int| 0 <= j < entries.len() implies !(fits(#[trigger] entries[j])
            && commands_of(entries[j]).len() > 0) by {
            assert(fits(entries[j]) == bears_name(entries[j], name));
        }
    }
}

/// A search by place finds commands exactly if an entry has the place and any,
/// and then those of the first such entry.
pub proof fn law_search_by_place(entries: Seq<UninstallEntry>, place: Seq<char>)
    ensures
        commands_by_place(place, entries).len() > 0 <==> is_listed_by_place(entries, place),
        forall|i: int|
            is_listed_by_place(entries, place) && #[trigger] is_first_by_place(entries, place, i)
                ==> commands_by_place(place, entries) == commands_of(entries[i]),
{
    let fits = has_place(super::uninstall_search::plain_place(place));
    law_first_fitting_entry_is_taken(entries, fits);
    if is_listed_by_place(entries, place) {
        let i = choose|i: int|
            0 <= i < entries.len() && has_its_place(#[trigger] entries[i], place) && commands_of(
                entries[i],
            ).len() > 0;
        assert(fits(entries[i]));
        let k = lemma_first_of_listed(entries, fits, i);
        assert forall|i: int| #[trigger] is_first_by_place(entries, place, i) implies
            commands_by_place(place, entries) == commands_of(entries[i]) by {
            assert(is_first_fitting(entries, fits, i));
        }
    } else if plain_name(place).len() > 0 {
        assert forall|j: int| 0 <= j < entries.len() implies !(fits(#[trigger] entries[j])
            && commands_of(entries[j]).len() > 0) by {
            assert(fits(entries[j]) == has_its_place(entries[j], place));
        }
    }
}

/// Whether a file is an uninstaller by its name: a program whose name holds
/// `unin` or its Chinese word.
pub open spec fn bears_uninstaller_name(file: Seq<char>) -> bool {
    path::last_extension(file) == Some("exe"@) && (text::contains_text(
        text::lowercase(path::last_stem(file)),
        "unin"@,
    ) || text::contains_text(text::lowercase(path::last_stem(file)), "卸载"@))
}

proof fn lemma_uninstaller_name(file: Seq<char>)
    ensures
        is_uninstaller(file) <==> bears_uninstaller_name(file),
{
    let stem = text::lowercase(path::last_stem(file));
    let marks = super::uninstall_search::uninstaller_marks();
    assert(marks[0] == "unin" && marks[1] == "uninstall" && marks[2] == "卸载");
    reveal_strlit("unin");
    reveal_strlit("uninstall");
    if text::contains_text(stem, "uninstall"@) {
        let i = choose|i: int| text::stands_at(stem, "uninstall"@, i);
        assert(stem.subrange(i, i + 4) =~= stem.subrange(i, i + 9).subrange(0, 4));
        assert("uninstall"@.subrange(0, 4) =~= "unin"@);
        assert(text::stands_at(stem, "unin"@, i));
    }
    if is_uninstaller(file) {
        let k = choose|k: int| 0 <= k < marks.len() && text::contains_text(stem, marks[k]@);
        assert(k == 0 || k == 1 || k == 2);
    }
    if bears_uninstaller_name(file) {
        if text::contains_text(stem, "unin"@) {
            assert(text::contains_text(stem, marks[0]@));
        } else {
            assert(text::contains_text(stem, marks[2]@));
        }
    }
}

proof fn lemma_uninstaller_position(files: Seq<String>, i: int)
    requires
        0 <= i <= files.len(),
    ensures
        i <= uninstaller_position(files, i) <= files.len(),
        forall|j: int|
            i <= j < uninstaller_position(files, i) ==> !is_uninstaller((#[trigger] files[j])@),
        uninstaller_position(files, i) < files.len() ==> is_uninstaller(
            files[uninstaller_position(files, i)]@,
        ),
    decreases files.len() - i,
{
    if i < files.len() && !is_uninstaller(files[i]@) {
        lemma_uninstaller_position(files, i + 1);
    }
}

/// The uninstaller of a directory is the first of its files that bears the name
/// of one; there is none exactly if no file does.
pub proof fn law_first_uninstaller_is_found(files: Seq<String>)
    ensures
        forall|i: int|
            0 <= i < files.len() && bears_uninstaller_name((#[trigger] files[i])@) && (forall|
                j: int,
            |
                0 <= j < i ==> !bears_uninstaller_name((#[trigger] files[j])@)) ==> uninstaller_in(
                files,
            ) == Some(files[i]@),
        uninstaller_in(files) is None <==> forall|i: int|
            0 <= i < files.len() ==> !bears_uninstaller_name((#[trigger] files[i])@),
{
    lemma_uninstaller_position(files, 0);
    let at = uninstaller_position(files, 0);
    assert forall|i: int| 0 <= i < files.len() implies is_uninstaller((#[trigger] files[i])@)
        == bears_uninstaller_name(files[i]@) by {
        lemma_uninstaller_name(files[i]@);
    }
    if at < files.len() {
        assert(bears_uninstaller_name(files[at]@));
        assert forall|i: int|
            0 <= i < files.len() && bears_uninstaller_name((#[trigger] files[i])@) && (forall|
                j: int,
            |
                0 <= j < i ==> !bears_uninstaller_name((#[trigger] files[j])@)) implies
            uninstaller_in(files) == Some(files[i]@) by {
            if i < at {
                assert(!is_uninstaller(files[i]@));
            } else if at < i {
                assert(!bears_uninstaller_name(files[at]@));
            }
        }
    } else {
        assert forall|i: int| 0 <= i < files.len() implies !bears_uninstaller_name(
            (#[trigger] files[i])@,
        ) by {
            assert(!is_uninstaller(files[i]@));
        }
    }
}

/// Where the input names no entry with commands, an application is looked for
/// by its name; where no entry with commands bears it, by its place, if one is
/// given; where no such entry has that either, the uninstaller in its directory
/// is run; and where there is none, the uninstallation fails and names the
/// application.
pub proof fn law_application_is_looked_for(input: UninstallInput, facts: MachineFacts)
    requires
        !names_an_entry(input, facts),
        input.app_id is Some,
    ensures
        ({
            let name = input.app_id->0@;
            let place = input.install_location->0@;
            let by_place = is_given(input.install_location) && is_listed_by_place(
                facts.entries@,
                place,
            );
            let r = resolved(input, facts);
            &&& forall|i: int|
                is_listed_by_name(facts.entries@, name) && #[trigger] is_first_by_name(
                    facts.entries@,
                    name,
                    i,
                ) ==> r == Ok::<Seq<Seq<char>>, Seq<char>>(commands_of(facts.entries@[i]))
            &&& forall|i: int|
                !is_listed_by_name(facts.entries@, name) && by_place
                    && #[trigger] is_first_by_place(facts.entries@, place, i) ==> r == Ok::<
                    Seq<Seq<char>>,
                    Seq<char>,
                >(commands_of(facts.entries@[i]))
            &&& forall|i: int|
                !is_listed_by_name(facts.entries@, name) && !by_place && is_given(
                    input.install_location,
                ) && 0 <= i < facts.files@.len() && bears_uninstaller_name(
                    (#[trigger] facts.files@[i])@,
                ) && (forall|j: int|
                    0 <= j < i ==> !bears_uninstaller_name((#[trigger] facts.files@[j])@))
                    ==> r == Ok::<Seq<Seq<char>>, Seq<char>>(seq![facts.files@[i]@])
            &&& !is_listed_by_name(facts.entries@, name) && !by_place && !(is_given(
                input.install_location,
            ) && exists|i: int|
                0 <= i < facts.files@.len() && bears_uninstaller_name(
                    (#[trigger] facts.files@[i])@,
                )) ==> r == Err::<Seq<Seq<char>>, Seq<char>>(
                "未找到应用 '"@ + name + "' 的卸载命令"@,
            )
        }),
{
    lemma_unnamed(input, facts);
    law_search_by_name(facts.entries@, input.app_id->0@);
    if is_given(input.install_location) {
        law_search_by_place(facts.entries@, input.install_location->0@);
        law_first_uninstaller_is_found(facts.files@);
    }
}

proof fn lemma_unnamed(input: UninstallInput, facts: MachineFacts)
    requires
        !names_an_entry(input, facts),
    ensures
        super::uninstaller::named_commands(input, facts).len() == 0,
{
    if facts.named_commands is Some {
        law_commands_of_an_entry((facts.named_commands->0).0@, (facts.named_commands->0).1@);
    }
}

/// An application that is not named, and whose entry is not, cannot be
/// uninstalled.
pub proof fn law_unnamed_application_is_refused(input: UninstallInput, facts: MachineFacts)
    requires
        !names_an_entry(input, facts),
        input.app_id is None,
    ensures
        resolved(input, facts) is Err,
{
    lemma_unnamed(input, facts);
}

/// An application counts as installed exactly if the entry that the input names
/// can be opened, an entry with commands bears its name or has its place, or a
/// program or a library still lies in its directory.
pub proof fn law_gone_means_no_trace(
    input: UninstallInput,
    named_opens: bool,
    facts: MachineFacts,
)
    ensures
        is_still_there(input, named_opens, facts) <==> {
            ||| named_opens && is_given(input.registry_path) && key_of(input.registry_path->0@)
                is Some
            ||| input.app_id is Some && is_listed_by_name(facts.entries@, input.app_id->0@)
            ||| is_given(input.install_location) && is_listed_by_place(
                facts.entries@,
                input.install_location->0@,
            )
            ||| is_given(input.install_location) && exists|i: int|
                0 <= i < facts.top_files@.len() && is_program_file(
                    (#[trigger] facts.top_files@[i])@,
                )
        },
{
    if input.app_id is Some {
        law_search_by_name(facts.entries@, input.app_id->0@);
    }
    if is_given(input.install_location) {
        law_search_by_place(facts.entries@, input.install_location->0@);
    }
}

/// Programs and libraries are told by their extension, in whatever case.
pub proof fn law_programs_are_told_by_extension(file: Seq<char>)
    ensures
        is_program_file(file) <==> exists|extension: Seq<char>|
            path::last_extension(file) == Some(extension) && (#[trigger] text::lowercase(extension)
                == "exe"@ || text::lowercase(extension) == "dll"@),
{
    if is_program_file(file) {
        let extension = path::last_extension(file)->0;
        assert(text::lowercase(extension) == "exe"@ || text::lowercase(extension) == "dll"@);
    }
}

/// An application whose commands a search in the registry finds is still there.
pub proof fn law_found_application_is_there(
    input: UninstallInput,
    named_opens: bool,
    facts: MachineFacts,
)
    requires
        input.app_id is Some,
        is_listed_by_name(facts.entries@, input.app_id->0@) || (is_given(input.install_location)
            && is_listed_by_place(facts.entries@, input.install_location->0@)),
    ensures
        is_still_there(input, named_opens, facts),
        resolved(input, facts) is Ok,
{
    law_gone_means_no_trace(input, named_opens, facts);
    law_search_by_name(facts.entries@, input.app_id->0@);
    if is_given(input.install_location) {
        law_search_by_place(facts.entries@, input.install_location->0@);
    }
}

/// As long as the application is not gone, its commands are run in their order,
/// one for each outcome, and every failure is noted with its command and its
/// reason; what is noted is told in the end if no command ran.
pub proof fn law_commands_run_in_order(commands: Seq<Seq<char>>, outcomes: Seq<CommandOutcome>)
    requires
        outcomes.len() <= commands.len(),
        forall|i: int| 0 <= i < outcomes.len() ==> !((#[trigger] outcomes[i]) is Gone),
    ensures
        ({
            let run = state_after_all(commands, outcomes);
            &&& !run.done
            &&& run.waiting == commands.skip(outcomes.len() as int)
            &&& outcomes.len() > 0 && outcomes.last() is StillInstalled ==> run.executed == Some(
                commands[outcomes.len() - 1],
            )
            &&& outcomes.len() > 0 && outcomes.last() is Failed ==> run.errors.len() > 0
                && run.errors.last() == commands[outcomes.len() - 1] + " => "@
                + outcomes.last()->Failed_0@
            &&& verdict(run) is Err
            &&& run.executed is None && run.errors.len() > 0 ==> verdict(run) == Err::<
                Seq<char>,
                Seq<char>,
            >("卸载命令执行失败："@ + text::joined(run.errors, " | "@))
            &&& run.executed matches Some(command) ==> verdict(run) == Err::<Seq<char>, Seq<char>>(
                "卸载命令已执行但仍检测到应用存在（可能未在卸载向导中确认完成）："@ + command,
            )
        }),
    decreases outcomes.len(),
{
    if outcomes.len() == 0 {
        assert(commands.skip(0) =~= commands);
    } else {
        let front = outcomes.drop_last();
        assert forall|i: int| 0 <= i < front.len() implies !((#[trigger] front[i]) is Gone) by {
            assert(front[i] == outcomes[i]);
        }
        law_commands_run_in_order(commands, front);
        assert(outcomes[outcomes.len() - 1] == outcomes.last());
        let n = front.len() as int;
        assert(commands.skip(n)[0] == commands[n]);
        assert(commands.skip(n).drop_first() =~= commands.skip(n + 1));
    }
}

/// A failure that was noted stays noted: later outcomes only add to the list.
pub proof fn law_noted_failures_stay(
    commands: Seq<Seq<char>>,
    outcomes: Seq<CommandOutcome>,
    next: CommandOutcome,
)
    ensures
        ({
            let before = state_after_all(commands, outcomes).errors;
            let after = state_after_all(commands, outcomes.push(next)).errors;
            after.len() >= before.len() && after.take(before.len() as int) == before
        }),
{
    assert(outcomes.push(next).drop_last() =~= outcomes);
    let before = state_after_all(commands, outcomes).errors;
    let after = state_after_all(commands, outcomes.push(next)).errors;
    assert(after.take(before.len() as int) =~= before);
}

/// A full path names the hive with which it begins, by its short or its long
/// name, and the path behind it.
pub proof fn law_full_paths_name_keys(rest: Seq<char>)
    ensures
        key_of("HKLM\\"@ + rest) == Some((Hive::LocalMachine, rest)),
        key_of("HKEY_LOCAL_MACHINE\\"@ + rest) == Some((Hive::LocalMachine, rest)),
        key_of("HKCU\\"@ + rest) == Some((Hive::CurrentUser, rest)),
        key_of("HKEY_CURRENT_USER\\"@ + rest) == Some((Hive::CurrentUser, rest)),
{
    reveal_strlit("HKLM\\");
    reveal_strlit("HKEY_LOCAL_MACHINE\\");
    reveal_strlit("HKCU\\");
    reveal_strlit("HKEY_CURRENT_USER\\");
    let a = "HKLM\\"@ + rest;
    assert(a.subrange(0, 5) =~= "HKLM\\"@);
    assert(a.skip(5) =~= rest);
    let b = "HKEY_LOCAL_MACHINE\\"@ + rest;
    assert(b.subrange(0, 19) =~= "HKEY_LOCAL_MACHINE\\"@);
    assert(b.subrange(0, 5)[2] == 'E');
    assert("HKLM\\"@[2] == 'L');
    assert(b.skip(19) =~= rest);
    let c = "HKCU\\"@ + rest;
    assert(c.subrange(0, 5) =~= "HKCU\\"@);
    assert(c.subrange(0, 5)[2] == 'C');
    assert(c.skip(5) =~= rest);
    if text::has_prefix(c, "HKEY_LOCAL_MACHINE\\"@) {
        assert(c.subrange(0, 19)[2] == 'C');
        assert("HKEY_LOCAL_MACHINE\\"@[2] == 'E');
    }
    let d = "HKEY_CURRENT_USER\\"@ + rest;
    assert(d.subrange(0, 18) =~= "HKEY_CURRENT_USER\\"@);
    assert(d.skip(18) =~= rest);
    assert(d.subrange(0, 5)[2] == 'E');
    assert("HKCU\\"@[2] == 'C');
    if text::has_prefix(d, "HKEY_LOCAL_MACHINE\\"@) {
        assert(d.subrange(0, 19)[5] == d[5]);
        assert("HKEY_LOCAL_MACHINE\\"@[5] == 'L');
        assert(d[5] == 'U');
    }
}

/// What lies below the system's part of the registry is never deleted.
pub proof fn law_what_lies_below_the_system_is_kept(
    path: Seq<char>,
    rest: Seq<char>,
    key: KeyFacts,
    keywords: Seq<String>,
)
    requires
        all_trimmed(judged_path(path)),
        judged_path(path) == "software\\microsoft\\windows"@ + rest,
        text::all_ascii(rest) && text::ascii_lowercase(rest) == rest,
    ensures
        !may_delete_key(path, key, keywords),
{
    reveal_strlit("software\\microsoft\\windows");
    let judged = judged_path(path);
    let root = "software\\microsoft\\windows"@;
    assert(text::all_ascii(judged)) by {
        assert forall|i: int| 0 <= i < judged.len() implies text::is_ascii(#[trigger] judged[i]) by {
            if i >= root.len() {
                assert(judged[i] == rest[i - root.len()]);
            }
        }
    }
    assert(text::lowercase(judged) =~= judged) by {
        assert forall|i: int| 0 <= i < judged.len() implies #[trigger] text::ascii_lower(judged[i])
            == judged[i] by {
            if i >= root.len() {
                assert(judged[i] == rest[i - root.len()]);
                assert(text::ascii_lowercase(rest)[i - root.len()] == text::ascii_lower(
                    rest[i - root.len()],
                ));
            }
        }
    }
    assert(judged.subrange(0, root.len() as int) =~= root);
}

/// Whether a text neither begins nor ends with a blank.
pub open spec fn all_trimmed(s: Seq<char>) -> bool {
    s.len() > 0 && !text::is_whitespace_char(s[0]) && !text::is_whitespace_char(s.last())
}

/// Whether a key lies two levels or more below the root of all software, and
/// not in the system's part of it.
pub open spec fn is_of_an_application(judged: Seq<char>) -> bool {
    &&& text::has_prefix(judged, "software\\"@)
    &&& !super::registry::is_protected_key(judged)
    &&& text::pieces(judged, CharSet::One('\\')).len() >= 3
}

/// A key of an application that can be opened is deleted where it holds nothing,
/// and where its path or its name, publisher, place or command speaks of one of
/// the keywords.
pub proof fn law_keys_of_the_application_are_deleted(
    path: Seq<char>,
    key: KeyFacts,
    keywords: Seq<String>,
)
    requires
        is_of_an_application(judged_path(path)),
        key.opens,
    ensures
        key.is_empty ==> may_delete_key(path, key, keywords),
        keywords.len() > 0 && speaks_of_one(judged_path(path), keywords) ==> may_delete_key(
            path,
            key,
            keywords,
        ),
        keywords.len() > 0 && match_text(key.display_name@).len() > 0 && speaks_of_one(
            match_text(key.display_name@),
            keywords,
        ) ==> may_delete_key(path, key, keywords),
        keywords.len() > 0 && match_text(key.publisher@).len() > 0 && speaks_of_one(
            match_text(key.publisher@),
            keywords,
        ) ==> may_delete_key(path, key, keywords),
        keywords.len() > 0 && match_text(key.install_location@).len() > 0 && speaks_of_one(
            match_text(key.install_location@),
            keywords,
        ) ==> may_delete_key(path, key, keywords),
        keywords.len() > 0 && match_text(key.uninstall_string@).len() > 0 && speaks_of_one(
            match_text(key.uninstall_string@),
            keywords,
        ) ==> may_delete_key(path, key, keywords),
{
    reveal_strlit("software\\");
    reveal_strlit("software");
    let judged = judged_path(path);
    assert(judged.len() >= 9);
}

/// A key that cannot be opened is never deleted.
pub proof fn law_closed_keys_are_kept(path: Seq<char>, key: KeyFacts, keywords: Seq<String>)
    requires
        !key.opens,
    ensures
        !may_delete_key(path, key, keywords),
{
}

/// The place that an entry states is taken as it stands; only where it states
/// none, the icon and then the uninstaller lead to it.
pub proof fn law_stated_place_comes_first(
    stated: Seq<char>,
    icon_place: Option<Seq<char>>,
    uninstaller_place: Option<Seq<char>>,
)
    ensures
        super::keywords::sanitized(stated).len() > 0 ==> place_of_entry(
            stated,
            icon_place,
            uninstaller_place,
        ) == Some(super::keywords::sanitized(stated)),
        super::keywords::sanitized(stated).len() == 0 && icon_place is Some
            && !text::contains_one(
            super::locate::shared_parts(),
            text::lowercase(icon_place->0),
        ) ==> place_of_entry(stated, icon_place, uninstaller_place) == icon_place,
        super::keywords::sanitized(stated).len() == 0 && icon_place is None && uninstaller_place
            is Some && !text::contains_one(
            super::locate::shared_parts(),
            text::lowercase(uninstaller_place->0),
        ) ==> place_of_entry(stated, icon_place, uninstaller_place) == uninstaller_place,
        super::keywords::sanitized(stated).len() == 0 && icon_place is None && uninstaller_place
            is None ==> place_of_entry(stated, icon_place, uninstaller_place) is None,
{
}

} // verus!
