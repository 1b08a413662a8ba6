//! What checking a program and looking for a newer one promise.

use vstd::prelude::*;

use crate::integrity::{
    asset_names_of, checked, failure_position, is_signature_text, judged, names_of, outcomes_of,
    signatures_in, stream_error, unfit_position, usable_signatures, FetchOutcome, IntegrityStatus,
    ProgramFile, SignatureView,
};
use crate::portable_update::{is_later, is_newer, numbers_in, segments_of};
use crate::text;
use crate::text::CharSet;

verus! {

/// The first signature that fits the program verifies it, whatever the others
/// say behind it; where all were tried and none fits, it was tampered with; and
/// one that could not be tried before any fits leaves the question open.
pub proof fn law_first_fitting_signature_decides(
    names: Seq<Seq<char>>,
    outcomes: Seq<Result<bool, Seq<char>>>,
    from: int,
    at: int,
)
    requires
        0 <= from <= at <= outcomes.len(),
        forall|i: int|
            from <= i < at ==> #[trigger] outcomes[i] == Ok::<bool, Seq<char>>(false),
    ensures
        at == outcomes.len() ==> judged(names, outcomes, from).status == IntegrityStatus::Tampered
            && judged(names, outcomes, from).asset_name is None,
        at < outcomes.len() && outcomes[at] == Ok::<bool, Seq<char>>(true) ==> judged(
            names,
            outcomes,
            from,
        ).status == IntegrityStatus::Verified && judged(names, outcomes, from).asset_name == Some(
            names[at],
        ),
        at < outcomes.len() && outcomes[at] is Err ==> judged(names, outcomes, from).status
            == IntegrityStatus::SignatureInvalid,
    decreases at - from,
{
    if from < at {
        assert(outcomes[from] == Ok::<bool, Seq<char>>(false));
        law_first_fitting_signature_decides(names, outcomes, from + 1, at);
    }
}

proof fn lemma_failure_position(fetched: Seq<FetchOutcome>, from: int, at: int)
    requires
        0 <= from <= at <= fetched.len(),
        forall|i: int| from <= i < at ==> !((#[trigger] fetched[i]) is Failed),
        at < fetched.len() ==> fetched[at] is Failed,
    ensures
        failure_position(fetched, from) == at,
    decreases at - from,
{
    if from < at {
        assert(!(fetched[from] is Failed));
        lemma_failure_position(fetched, from + 1, at);
    }
}

/// Where fetching a signature failed, nothing is said of the program but that.
pub proof fn law_failed_fetch_is_no_verdict(tag: Seq<char>, fetched: Seq<FetchOutcome>, at: int)
    requires
        0 <= at < fetched.len(),
        fetched[at] is Failed,
        forall|i: int| 0 <= i < at ==> !((#[trigger] fetched[i]) is Failed),
    ensures
        usable_signatures(tag, fetched) matches Err(view) && view.status
            == IntegrityStatus::NetworkError,
{
    lemma_failure_position(fetched, 0, at);
}

/// With the signatures of all three programs there and readable the program is
/// checked against them, each under the name of its program.
pub proof fn law_three_signatures_are_used(
    tag: Seq<char>,
    a: String,
    b: String,
    c: String,
)
    requires
        is_signature_text(a@) && is_signature_text(b@) && is_signature_text(c@),
    ensures
        ({
            let fetched = seq![
                FetchOutcome::Fetched(a),
                FetchOutcome::Fetched(b),
                FetchOutcome::Fetched(c),
            ];
            usable_signatures(tag, fetched) == Ok::<
                Seq<SignatureView>,
                crate::integrity::IntegrityView,
            >(
                seq![
                    SignatureView { asset_name: "viap_"@ + tag + "_"@ + "x64.exe"@, content: a@ },
                    SignatureView {
                        asset_name: "viap_"@ + tag + "_"@ + "x64-offline-webview2.exe"@,
                        content: b@,
                    },
                    SignatureView {
                        asset_name: "viap_"@ + tag + "_"@ + "x64-portable.exe"@,
                        content: c@,
                    },
                ],
            )
        }),
{
    let fetched = seq![
        FetchOutcome::Fetched(a),
        FetchOutcome::Fetched(b),
        FetchOutcome::Fetched(c),
    ];
    lemma_failure_position(fetched, 0, 3);
    let names = asset_names_of(tag);
    let two = fetched.drop_last();
    let one = two.drop_last();
    let none = one.drop_last();
    assert(none.len() == 0);
    assert(signatures_in(names, none) =~= Seq::<SignatureView>::empty());
    let sa = SignatureView { asset_name: names[0], content: a@ };
    let sb = SignatureView { asset_name: names[1], content: b@ };
    let sc = SignatureView { asset_name: names[2], content: c@ };
    assert(one.last() == FetchOutcome::Fetched(a));
    assert(two.last() == FetchOutcome::Fetched(b));
    assert(signatures_in(names, one) =~= seq![sa]);
    assert(signatures_in(names, two) =~= seq![sa, sb]);
    assert(signatures_in(names, fetched) =~= seq![sa, sb, sc]);
}

/// Of two versions the first number that differs decides; where one goes on
/// where the other ends, it is later.
pub proof fn law_first_difference_decides(
    common: Seq<u64>,
    a: Seq<u64>,
    b: Seq<u64>,
)
    ensures
        a.len() > 0 && b.len() > 0 && a[0] != b[0] ==> is_later(common + a, common + b) == (a[0]
            > b[0]),
        a.len() > 0 ==> is_later(common + a, common),
        !is_later(common, common + a),
    decreases common.len(),
{
    if common.len() == 0 {
        assert(common + a =~= a);
        assert(common + b =~= b);
    } else {
        let rest = common.drop_first();
        law_first_difference_decides(rest, a, b);
        assert((common + a).drop_first() =~= rest + a);
        assert((common + b).drop_first() =~= rest + b);
        assert((common + a)[0] == common[0]);
        assert((common + b)[0] == common[0]);
    }
}

/// A leading `v` does not change a version.
pub proof fn law_leading_v_does_not_count(version: Seq<char>)
    requires
        version.len() > 0,
        !text::is_whitespace_char(version[0]),
        !text::is_whitespace_char(version.last()),
    ensures
        segments_of(seq!['v'] + version) == segments_of(version),
        segments_of(seq!['V'] + version) == segments_of(version),
{
    let set = CharSet::Two('v', 'V');
    let a = seq!['v'] + version;
    let b = seq!['V'] + version;
    assert(a[0] == 'v' && a.last() == version.last());
    assert(b[0] == 'V' && b.last() == version.last());
    assert(text::trimmed(version, CharSet::Whitespace) == version);
    assert(text::trimmed(a, CharSet::Whitespace) == a);
    assert(text::trimmed(b, CharSet::Whitespace) == b);
    assert(a.drop_first() =~= version);
    assert(b.drop_first() =~= version);
    assert(text::trimmed_start(a, set) == text::trimmed_start(version, set));
    assert(text::trimmed_start(b, set) == text::trimmed_start(version, set));
}

/// A version is made of as many numbers as it has parts, each that of its part;
/// one part that is no number, and there are none.
pub proof fn law_numbers_of_a_version(parts: Seq<Seq<char>>)
    ensures
        numbers_in(parts) matches Some(numbers) ==> numbers.len() == parts.len() && forall|i: int|
            0 <= i < parts.len() ==> text::parsed_u64(
                text::trimmed(#[trigger] parts[i], CharSet::Whitespace),
            ) == Some(numbers[i]),
        numbers_in(parts) is None <==> exists|i: int|
            0 <= i < parts.len() && text::parsed_u64(
                text::trimmed(#[trigger] parts[i], CharSet::Whitespace),
            ) is None,
    decreases parts.len(),
{
    if parts.len() > 0 {
        let front = parts.drop_last();
        law_numbers_of_a_version(front);
        assert(parts[parts.len() - 1] == parts.last());
        if numbers_in(parts) is Some {
            let numbers = numbers_in(parts)->0;
            assert forall|i: int| 0 <= i < parts.len() implies text::parsed_u64(
                text::trimmed(#[trigger] parts[i], CharSet::Whitespace),
            ) == Some(numbers[i]) by {
                if i < front.len() {
                    assert(front[i] == parts[i]);
                }
            }
        } else if numbers_in(front) is None {
            let i = choose|i: int|
                0 <= i < front.len() && text::parsed_u64(
                    text::trimmed(#[trigger] front[i], CharSet::Whitespace),
                ) is None;
            assert(parts[i] == front[i]);
        }
    }
}

/// A version is newer than another exactly if both can be read and its numbers
/// are later.
pub proof fn law_what_newer_means(latest: Seq<char>, current: Seq<char>, a: Seq<u64>, b: Seq<u64>)
    requires
        segments_of(latest) == Some(a),
        segments_of(current) == Some(b),
    ensures
        is_newer(latest, current) == is_later(a, b),
{
}

proof fn lemma_unfit(key: Seq<char>, signatures: Seq<SignatureView>, at: int, from: int)
    requires
        0 <= from <= at <= signatures.len(),
        at < signatures.len() ==> stream_error(key, signatures[at].content) is Some,
        forall|i: int|
            from <= i < at ==> stream_error(key, (#[trigger] signatures[i]).content) is None,
    ensures
        unfit_position(key, signatures, from) == at,
    decreases at - from,
{
    if from < at {
        assert(stream_error(key, signatures[from].content) is None);
        lemma_unfit(key, signatures, at, from + 1);
    }
}

/// A signature that cannot be checked makes the check void, and a program that
/// cannot be read is no verdict on it: neither is taken for a program that was
/// verified or tampered with.
pub proof fn law_what_cannot_be_checked_is_no_verdict(
    key: Seq<char>,
    signatures: Seq<SignatureView>,
    file: ProgramFile,
    at: int,
)
    requires
        0 <= at <= signatures.len(),
        at < signatures.len() ==> stream_error(key, signatures[at].content) is Some,
        forall|i: int| 0 <= i < at ==> stream_error(key, (#[trigger] signatures[i]).content) is None,
    ensures
        file is BrokenOff ==> checked(key, signatures, file).status
            == IntegrityStatus::LocalFileError,
        !(file is BrokenOff) && at < signatures.len() ==> checked(key, signatures, file).status
            == IntegrityStatus::SignatureInvalid,
        !(file is Read) && at == signatures.len() ==> checked(key, signatures, file).status
            == IntegrityStatus::LocalFileError,
        !(file is Read) || at < signatures.len() ==> checked(key, signatures, file).asset_name
            is None,
{
    lemma_unfit(key, signatures, at, 0);
}

/// A program that was read, with signatures that can all be checked, is judged
/// by what each of them says of its content.
pub proof fn law_content_decides(
    key: Seq<char>,
    signatures: Seq<SignatureView>,
    content: Vec<u8>,
)
    requires
        forall|i: int|
            0 <= i < signatures.len() ==> stream_error(key, (#[trigger] signatures[i]).content)
                is None,
    ensures
        checked(key, signatures, ProgramFile::Read(content)) == judged(
            names_of(signatures),
            outcomes_of(key, signatures, content@),
            0,
        ),
{
    lemma_unfit(key, signatures, signatures.len() as int, 0);
}

} // verus!
