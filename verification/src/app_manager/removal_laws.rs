//! What removing promises: what a cleanup deletes and how it accounts for it,
//! how a forced removal goes, and by which words an application is known.

use vstd::prelude::*;

use super::force_remove::{
    directory_name, entry_position, names_agree, removal_of, ListedEntry, RemovalFact, RemovalView, StageView,
};
use super::keywords::{
    is_telling, keywords_of, sanitized, speaks_of, tokens_of, with_text, with_tokens,
};
use super::registry::{key_of, may_delete_key, KeyFacts};
use super::remains_cleanup::{is_next_task, CleanupFact, CleanupTask, CleanupView};
use super::residue::is_protected_path;
use super::uninstaller::UninstallInput;
use crate::path;
use crate::text;
use crate::text::CharSet;

verus! {

/// A file or a directory that exists and is not protected is deleted, and
/// counts once it is gone; one that could not be deleted is named.
pub proof fn law_unprotected_path_is_deleted(state: CleanupView, item: Seq<char>)
    requires
        state.waiting.len() > 0,
        state.waiting[0] == item,
        !state.approved,
        key_of(item) is None,
        !is_protected_path(text::trimmed(item, CharSet::Whitespace)),
    ensures
        ({
            let seen = state.after(CleanupFact::Path { present: true });
            let gone = seen.after(CleanupFact::Deleted(true));
            let left = seen.after(CleanupFact::Deleted(false));
            &&& seen.approved && seen.waiting == state.waiting
            &&& gone.cleaned == state.cleaned + 1 && gone.failed == state.failed && gone.waiting
                == state.waiting.drop_first()
            &&& left.cleaned == state.cleaned && left.failed == state.failed.push(
                text::trimmed(item, CharSet::Whitespace),
            ) && left.waiting == state.waiting.drop_first()
        }),
{
}

/// What is protected is not deleted, and named; what is not there is passed
/// over.
pub proof fn law_protected_path_is_named(state: CleanupView, item: Seq<char>)
    requires
        state.waiting.len() > 0,
        state.waiting[0] == item,
        !state.approved,
        key_of(item) is None,
    ensures
        ({
            let seen = state.after(CleanupFact::Path { present: true });
            let missing = state.after(CleanupFact::Path { present: false });
            &&& is_protected_path(text::trimmed(item, CharSet::Whitespace)) ==> !seen.approved
                && seen.cleaned == state.cleaned && seen.failed == state.failed.push(
                text::trimmed(item, CharSet::Whitespace),
            )
            &&& missing.cleaned == state.cleaned && missing.failed == state.failed
                && missing.waiting == state.waiting.drop_first() && !missing.approved
        }),
{
}

/// A registry key is deleted exactly if it may be; else it is named.
pub proof fn law_key_is_deleted_where_it_may(state: CleanupView, item: Seq<char>, facts: KeyFacts)
    requires
        state.waiting.len() > 0,
        state.waiting[0] == item,
        !state.approved,
        key_of(item) is Some,
    ensures
        ({
            let path = (key_of(item)->0).1;
            let seen = state.after(CleanupFact::Key(facts));
            &&& may_delete_key(path, facts, state.keywords) ==> seen.approved && seen.waiting
                == state.waiting
            &&& !may_delete_key(path, facts, state.keywords) ==> seen.failed == state.failed.push(
                item,
            ) && seen.waiting == state.waiting.drop_first() && !seen.approved
        }),
{
}

/// The task is always that of the first item that is waiting: to look at it
/// before it is approved, to delete it afterwards.
pub proof fn law_task_is_that_of_the_first_item(state: CleanupView, task: CleanupTask)
    requires
        is_next_task(state, task),
    ensures
        task is Finished <==> state.waiting.len() == 0,
        task is DeleteKey || task is DeletePath <==> state.waiting.len() > 0 && state.approved,
        task matches CleanupTask::DeletePath(path) ==> path@ == text::trimmed(
            state.waiting[0],
            CharSet::Whitespace,
        ) && key_of(state.waiting[0]) is None,
        task matches CleanupTask::DeleteKey(key) ==> key_of(state.waiting[0]) == Some(
            (key.hive, key.path@),
        ),
{
}

/// Whether there is nothing against removing a directory: it exists, is not
/// protected, lies three levels deep, and its name goes with the application's
/// where one is given.
pub open spec fn is_free_to_go(path: Seq<char>, app_id: Option<Seq<char>>) -> bool {
    &&& !is_protected_path(path)
    &&& path::names_below_root(path).len() >= 3
    &&& app_id is Some && app_id->0.len() > 0 ==> names_agree(
        directory_name(path),
        text::lowercase(app_id->0),
    )
}

/// A directory that exists is removed where there is nothing against it, and
/// refused where there is.
pub proof fn law_directory_is_removed_where_it_may(removal: RemovalView, path: Seq<char>)
    requires
        removal.stage == StageView::InspectPlace(path),
    ensures
        ({
            let n = removal.after(RemovalFact::Place { present: true });
            &&& is_free_to_go(path, removal.app_id) ==> n.stage == StageView::RemovePlace(path)
            &&& !is_free_to_go(path, removal.app_id) ==> n.stage is Refused
            &&& n.deleted_files == removal.deleted_files
        }),
{
    reveal_strlit("");
}

/// A directory that is not there is no failure where a registry key was
/// deleted.
pub proof fn law_missing_directory_is_passed_over(removal: RemovalView, path: Seq<char>)
    requires
        removal.stage == StageView::InspectPlace(path),
        !removal.deleted_files,
    ensures
        removal.deleted_registry ==> removal.after(RemovalFact::Place { present: false }).stage
            is Removed,
        !removal.deleted_registry ==> removal.after(RemovalFact::Place { present: false }).stage
            is Refused,
{
}

/// A directory that was removed ends the removal well; one that could not be
/// removed ends it with the reason, and no way around the recycle bin is taken.
pub proof fn law_removed_directory_ends_the_removal(
    removal: RemovalView,
    path: Seq<char>,
    error: String,
)
    requires
        removal.stage == StageView::RemovePlace(path),
    ensures
        removal.after(RemovalFact::Removal(None)).stage is Removed,
        removal.after(RemovalFact::Removal(None)).deleted_files,
        removal.after(RemovalFact::Removal(Some(error))).stage is Refused,
        !removal.after(RemovalFact::Removal(Some(error))).deleted_files || removal.deleted_files,
{
}

/// A directory's name and an application's go together where they are the same,
/// where one holds the other, and where a word of the application's stands in
/// the directory's; else they do not.
pub proof fn law_names_that_agree(dir: Seq<char>, app: Seq<char>)
    ensures
        names_agree(dir, dir),
        text::contains_text(dir, app) ==> names_agree(dir, app),
        text::contains_text(app, dir) ==> names_agree(dir, app),
        forall|i: int|
            0 <= i < text::words(app).len() && text::contains_text(dir, #[trigger] text::words(app)[i])
                ==> names_agree(dir, app),
        names_agree(dir, app) ==> text::contains_text(dir, app) || text::contains_text(app, dir)
            || exists|i: int|
            0 <= i < text::words(app).len() && text::contains_text(
                dir,
                #[trigger] text::words(app)[i],
            ),
{
    assert(dir.subrange(0, dir.len() as int) =~= dir);
    assert(text::stands_at(dir, dir, 0));
}

/// The application's entry under a root is the first that bears its name.
pub proof fn law_first_entry_by_name(entries: Seq<ListedEntry>, name: Seq<char>, from: int)
    requires
        0 <= from <= entries.len(),
    ensures
        ({
            let at = entry_position(entries, name, from);
            &&& from <= at <= entries.len()
            &&& forall|j: int|
                from <= j < at ==> text::lowercase(
                    text::trimmed((#[trigger] entries[j]).display_name@, CharSet::Whitespace),
                ) != name
            &&& at < entries.len() ==> text::lowercase(
                text::trimmed(entries[at].display_name@, CharSet::Whitespace),
            ) == name
        }),
    decreases entries.len() - from,
{
    if from < entries.len() && super::uninstall_search::plain_name(entries[from].display_name@)
        != name {
        law_first_entry_by_name(entries, name, from + 1);
    }
}

/// A place that the input states is kept; only where it states none, the
/// registry gives it.
pub proof fn law_stated_place_is_kept(removal: RemovalView, place: Option<Seq<char>>)
    ensures
        removal.install_location is Some ==> removal.with_place(place).install_location
            == removal.install_location,
        removal.install_location is None ==> removal.with_place(place).install_location == place,
{
}

/// All three roots are searched for an application with a name, one after the
/// other, before its directory is looked at; without a name the directory is
/// looked at right away.
pub proof fn law_all_roots_are_searched(removal: RemovalView, root: int)
    requires
        0 <= root <= 3,
    ensures
        removal.app_id is Some && root < 3 ==> removal.seeking(root).stage == StageView::ListRoot(
            root,
        ),
        (removal.app_id is None || root == 3) && removal.install_location is Some
            ==> removal.seeking(root).stage == StageView::InspectPlace(
            removal.install_location->0,
        ),
        (removal.app_id is None || root == 3) && removal.install_location is None ==> (
        removal.seeking(root).stage is Removed <==> removal.deleted_files
            || removal.deleted_registry),
{
}

/// A removal begins with the registry entry that the input names; without one,
/// with the search. Files go to the recycle bin unless the input says not to.
pub proof fn law_removal_begins_with_the_named_entry(input: UninstallInput)
    ensures
        input.registry_path is Some && text::trimmed(
            input.registry_path->0@,
            CharSet::Whitespace,
        ).len() > 0 && key_of(input.registry_path->0@) is Some ==> removal_of(input).stage == StageView::InspectNamed(
            (key_of(input.registry_path->0@)->0).0,
            (key_of(input.registry_path->0@)->0).1,
        ),
        input.registry_path is None && input.app_id is Some ==> removal_of(input).stage
            == StageView::ListRoot(0),
        removal_of(input).use_recycle_bin <==> input.use_recycle_bin != Some(false),
        input.install_location is Some && sanitized(input.install_location->0@).len() > 0 ==> removal_of(
            input,
        ).install_location == Some(sanitized(input.install_location->0@)),
{
}

/// Every token of an application's name, publisher or place that tells it from
/// others is one of its keywords, and every keyword is such a token.
pub proof fn law_keywords_are_the_telling_tokens(
    name: Seq<char>,
    publisher: Option<Seq<char>>,
    place: Option<Seq<char>>,
    token: Seq<char>,
)
    ensures
        keywords_of(name, publisher, place).contains(token) <==> is_telling(token) && (
        is_token_of(sanitized(name), token) || (publisher is Some && is_token_of(
            sanitized(publisher->0),
            token,
        )) || (place is Some && is_token_of(sanitized(place->0), token))),
{
    let none: Seq<Seq<char>> = seq![];
    lemma_with_text(none, sanitized(name), token);
    let first = with_text(none, sanitized(name));
    let second = match publisher {
        Some(raw) => with_text(first, sanitized(raw)),
        None => first,
    };
    if publisher is Some {
        lemma_with_text(first, sanitized(publisher->0), token);
    }
    if place is Some {
        lemma_with_text(second, sanitized(place->0), token);
    }
}

/// Whether a text holds a token.
pub open spec fn is_token_of(raw: Seq<char>, token: Seq<char>) -> bool {
    raw.len() > 0 && tokens_of(raw).contains(token)
}

proof fn lemma_with_text(keywords: Seq<Seq<char>>, raw: Seq<char>, token: Seq<char>)
    ensures
        with_text(keywords, raw).contains(token) <==> keywords.contains(token) || (is_telling(token)
            && is_token_of(raw, token)),
{
    if raw.len() > 0 {
        lemma_with_tokens(keywords, tokens_of(raw), token);
    }
}

proof fn lemma_with_tokens(keywords: Seq<Seq<char>>, tokens: Seq<Seq<char>>, token: Seq<char>)
    ensures
        with_tokens(keywords, tokens).contains(token) <==> keywords.contains(token) || (is_telling(
            token,
        ) && tokens.contains(token)),
    decreases tokens.len(),
{
    if tokens.len() > 0 {
        let front = tokens.drop_last();
        lemma_with_tokens(keywords, front, token);
        let before = with_tokens(keywords, front);
        let all = with_tokens(keywords, tokens);
        if tokens.contains(token) {
            let i = choose|i: int| 0 <= i < tokens.len() && tokens[i] == token;
            if i < front.len() {
                assert(front[i] == token);
            }
        }
        if front.contains(token) {
            let i = choose|i: int| 0 <= i < front.len() && front[i] == token;
            assert(tokens[i] == token);
        }
        assert(tokens[tokens.len() - 1] == tokens.last());
        if all.len() > before.len() {
            assert(all[all.len() - 1] == tokens.last());
            if before.contains(token) {
                let i = choose|i: int| 0 <= i < before.len() && before[i] == token;
                assert(all[i] == token);
            }
            if all.contains(token) {
                let i = choose|i: int| 0 <= i < all.len() && all[i] == token;
                if i < before.len() {
                    assert(before[i] == token);
                }
            }
        }
    }
}

/// A text speaks of a word of letters and digits where it stands in it with
/// neither right before nor right behind it; of another keyword wherever it
/// stands.
pub proof fn law_what_a_text_speaks_of(before: Seq<char>, word: Seq<char>, behind: Seq<char>)
    requires
        word.len() > 0,
    ensures
        (before.len() == 0 || !text::is_ascii_alphanumeric(before.last())) && (behind.len() == 0
            || !text::is_ascii_alphanumeric(behind[0])) ==> speaks_of(
            before + word + behind,
            word,
        ),
        !super::keywords::is_plain_word(word) ==> speaks_of(before + word + behind, word),
{
    let s = before + word + behind;
    let i = before.len() as int;
    assert(s.subrange(i, i + word.len()) =~= word);
    assert(text::stands_at(s, word, i));
    if before.len() > 0 {
        assert(s[i - 1] == before.last());
    }
    if behind.len() > 0 {
        assert(s[i + word.len()] == behind[0]);
    }
    if (before.len() == 0 || !text::is_ascii_alphanumeric(before.last())) && (behind.len() == 0
        || !text::is_ascii_alphanumeric(behind[0])) {
        assert(super::keywords::stands_alone_at(s, word, i));
    }
}

/// A text speaks of nothing that does not stand in it.
pub proof fn law_no_text_speaks_of_what_it_does_not_hold(s: Seq<char>, keyword: Seq<char>)
    requires
        !text::contains_text(s, keyword),
    ensures
        !speaks_of(s, keyword),
{
}

/// Short words and generic ones tell no application from another; longer ones
/// that are not generic do.
pub proof fn law_telling_words(token: Seq<char>)
    ensures
        token.len() < 2 ==> !is_telling(token),
        super::keywords::is_plain_word(token) && token.len() < 3 ==> !is_telling(token),
        text::among(super::keywords::generic_words(), token) ==> !is_telling(token),
        token.len() >= 3 && !text::among(super::keywords::generic_words(), token) ==> is_telling(
            token,
        ),
        is_generic(token) ==> !is_telling(token),
{
    let words = super::keywords::generic_words();
    assert(words[0] == "app" && words[1] == "apps" && words[2] == "group" && words[3] == "company"
        && words[7] == "corp" && words[12] == "software" && words[18] == "windows" && words[19]
        == "microsoft");
    if is_generic(token) {
        assert(words[0]@ == token || words[1]@ == token || words[2]@ == token || words[3]@ == token
            || words[7]@ == token || words[12]@ == token || words[18]@ == token || words[19]@
            == token);
    }
}

/// Whether a word is one of those that many names hold.
pub open spec fn is_generic(token: Seq<char>) -> bool {
    token == "app"@ || token == "apps"@ || token == "group"@ || token == "company"@ || token
        == "corp"@ || token == "software"@ || token == "windows"@ || token == "microsoft"@
}

} // verus!
