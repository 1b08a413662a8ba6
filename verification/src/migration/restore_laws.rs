//! What moving a directory back promises: which copies it accepts, how it goes
//! when every step goes well, and what is left when one does not.

use vstd::prelude::*;

use super::migration_laws::{lemma_tells, tells};
use super::restore::{
    next, started, RestoreEventView, RestoreStage, RestoreView, RestoredView,
};
use crate::path;

verus! {

/// The copy at the target is let go exactly if what came back is off by no more
/// than one percent and one MiB, to either side. Else the restore is rolled
/// back.
pub proof fn law_only_a_whole_copy_lets_the_target_go(
    r: RestoreView,
    size: u64,
    expected_text: Seq<char>,
    actual_text: Seq<char>,
)
    requires
        r.stage == RestoreStage::MeasureOriginal,
    ensures
        ({
            let n = next(
                r,
                RestoreEventView::OriginalMeasured { size, expected_text, actual_text },
            );
            let is_whole = r.total_size <= size + r.total_size / 100 + 1_048_576 && size
                <= r.total_size + r.total_size / 100 + 1_048_576;
            &&& n.stage == RestoreStage::RemoveTarget <==> is_whole
            &&& is_whole ==> n.restored_size == size
            &&& !is_whole ==> n.stage == RestoreStage::ProbePartial && n.result == r.result
                && tells(n.reason, expected_text) && tells(n.reason, actual_text)
        }),
{
    let before = "恢复完整性校验失败：预期 "@;
    let middle = "，实际 "@;
    let end = "。\n"@;
    lemma_tells(before, expected_text, middle + actual_text + end);
    assert(before + expected_text + (middle + actual_text + end) =~= before + expected_text + middle
        + actual_text + end);
    lemma_tells(before + expected_text + middle, actual_text, end);
}

/// The target's deletion is begun by nothing but a measured size.
pub proof fn law_target_is_deleted_only_once_measured(r: RestoreView, e: RestoreEventView)
    requires
        r.stage != RestoreStage::RemoveTarget,
        next(r, e).stage == RestoreStage::RemoveTarget,
    ensures
        r.stage == RestoreStage::MeasureOriginal,
        e matches RestoreEventView::OriginalMeasured { size, expected_text, actual_text } && {
            &&& next(r, e).restored_size == size
            &&& r.total_size > 209_715_200 ==> 100 * size >= 98 * r.total_size
        },
{
}

/// What is written of a restore that went well.
pub open spec fn is_restored(r: RestoreView, size: u64, warning: Option<Seq<char>>) -> bool {
    &&& r.stage == RestoreStage::Finished
    &&& r.result == Some(
        Ok::<RestoredView, Seq<char>>(
            RestoredView { restored_size: size, cleanup_warning: warning },
        ),
    )
}

/// A restore goes step by step: the room is checked, the link removed where
/// there is one, the original made, filled and measured, and only then the
/// target deleted.
#[verifier::rlimit(60)]
#[verifier::spinoff_prover]
pub proof fn law_restoring_goes_step_by_step(
    original: Seq<char>,
    target: Seq<char>,
    size: u64,
    available: u64,
    is_linked: bool,
)
    requires
        path::parent(original) is Some,
        size <= available,
    ensures
        ({
            let a = next(
                started(original, target),
                RestoreEventView::PlanBuilt { total_size: size },
            );
            let b = next(
                a,
                RestoreEventView::SpaceChecked {
                    available,
                    available_text: seq![],
                    required_text: seq![],
                },
            );
            let c = next(
                b,
                RestoreEventView::OriginalProbed { is_junction: is_linked, exists: is_linked },
            );
            let d = if is_linked {
                next(c, RestoreEventView::Done)
            } else {
                c
            };
            let e = next(d, RestoreEventView::Done);
            let f = next(e, RestoreEventView::Done);
            let g = next(
                f,
                RestoreEventView::OriginalMeasured {
                    size,
                    expected_text: seq![],
                    actual_text: seq![],
                },
            );
            let h = next(g, RestoreEventView::Done);
            let i = next(h, RestoreEventView::Done);
            &&& a.stage == RestoreStage::CheckSpace
            &&& b.stage == RestoreStage::ProbeOriginal
            &&& is_linked ==> c.stage == RestoreStage::RemoveLink
            &&& d.stage == RestoreStage::CreateOriginal
            &&& e.stage == RestoreStage::CopyBack
            &&& f.stage == RestoreStage::MeasureOriginal
            &&& g.stage == RestoreStage::RemoveTarget
            &&& h.stage == RestoreStage::RemoveLeftovers
            &&& is_restored(i, size, None)
        }),
{
}

/// Whether a restore has ended with an error.
pub open spec fn has_failed(r: RestoreView) -> bool {
    r.stage == RestoreStage::Finished && (r.result matches Some(result) && result is Err)
}

/// A restore is refused, before anything is touched, where there is no room for
/// the data, and where something that is no link stands at the original path.
pub proof fn law_restore_that_cannot_go_well_is_refused(
    r: RestoreView,
    available: u64,
    available_text: Seq<char>,
    required_text: Seq<char>,
)
    ensures
        r.stage == RestoreStage::CheckSpace && available < r.total_size ==> has_failed(
            next(
                r,
                RestoreEventView::SpaceChecked { available, available_text, required_text },
            ),
        ),
        r.stage == RestoreStage::CheckSpace && path::parent(r.original) is Some && available
            >= r.total_size ==> next(
            r,
            RestoreEventView::SpaceChecked { available, available_text, required_text },
        ).stage == RestoreStage::ProbeOriginal,
        r.stage == RestoreStage::ProbeOriginal ==> has_failed(
            next(r, RestoreEventView::OriginalProbed { is_junction: false, exists: true }),
        ),
        r.stage == RestoreStage::ProbeOriginal ==> next(
            r,
            RestoreEventView::OriginalProbed { is_junction: false, exists: false },
        ).stage == RestoreStage::CreateOriginal,
{
}

/// A step that fails before anything was copied ends the restore, and why it
/// failed is told.
pub proof fn law_early_failure_is_told(r: RestoreView, reason: Seq<char>)
    requires
        r.stage == RestoreStage::BuildPlan || r.stage == RestoreStage::RemoveLink || r.stage
            == RestoreStage::CreateOriginal,
    ensures
        has_failed(next(r, RestoreEventView::Failed { reason })),
        tells(next(r, RestoreEventView::Failed { reason }).result->0->Err_0, reason),
{
    let told = next(r, RestoreEventView::Failed { reason }).result->0->Err_0;
    let before = told.take(told.len() - reason.len());
    lemma_tells(before, reason, seq![]);
    assert(before + reason + seq![] =~= told);
}

/// A copy that fails is rolled back: what was copied is deleted, the link made
/// again, and why it failed is told.
pub proof fn law_failed_copy_is_rolled_back(r: RestoreView, reason: Seq<char>)
    requires
        r.stage == RestoreStage::CopyBack,
    ensures
        ({
            let a = next(r, RestoreEventView::Failed { reason });
            let b = next(
                a,
                RestoreEventView::OriginalProbed { is_junction: false, exists: true },
            );
            let c = next(b, RestoreEventView::Done);
            let d = next(
                c,
                RestoreEventView::OriginalProbed { is_junction: false, exists: false },
            );
            let e = next(d, RestoreEventView::Done);
            &&& a.stage == RestoreStage::ProbePartial && tells(a.reason, reason)
            &&& b.stage == RestoreStage::RemovePartial
            &&& c.stage == RestoreStage::ProbeUnlinked
            &&& d.stage == RestoreStage::Relink
            &&& has_failed(e) && tells(e.result->0->Err_0, reason)
        }),
{
    let a = next(r, RestoreEventView::Failed { reason });
    lemma_tells("恢复复制失败："@, reason, "\n"@);
    let message = super::links::rollback_message(r.target, r.partial_failure, None);
    lemma_tells("恢复复制失败："@, reason, "\n"@ + message);
    assert("恢复复制失败："@ + reason + ("\n"@ + message) =~= a.reason + message);
}

/// However the rollback goes, the restore ends with an error that begins with
/// what it failed of.
pub proof fn law_rollback_ends_in_the_error(r: RestoreView, e: RestoreEventView)
    requires
        r.stage == RestoreStage::Relink || r.stage == RestoreStage::ProbeUnlinked,
        r.stage == RestoreStage::Relink ==> e is Done || e is Failed,
        r.stage == RestoreStage::ProbeUnlinked ==> (e matches RestoreEventView::OriginalProbed {
            is_junction,
            exists,
        } && exists),
    ensures
        has_failed(next(r, e)),
        next(r, e).result->0->Err_0.take(r.reason.len() as int) == r.reason,
{
    let told = next(r, e).result->0->Err_0;
    assert(told.take(r.reason.len() as int) =~= r.reason);
}

/// A target that cannot be deleted does not undo the restore: it ends well, and
/// the warning tells why.
pub proof fn law_leftover_target_is_only_a_warning(r: RestoreView, reason: Seq<char>)
    requires
        r.stage == RestoreStage::RemoveTarget,
    ensures
        ({
            let a = next(r, RestoreEventView::Failed { reason });
            let b = next(a, RestoreEventView::Done);
            &&& a.stage == RestoreStage::RemoveLeftovers
            &&& b.result matches Some(Ok(done)) && done.restored_size == r.restored_size
                && done.cleanup_warning is Some && tells(done.cleanup_warning->0, reason)
        }),
{
    let before = "恢复已完成，但目标副本清理失败："@;
    lemma_tells(before, reason, seq![]);
    assert(before + reason + seq![] =~= before + reason);
}

} // verus!
