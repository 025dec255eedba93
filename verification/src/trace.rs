//! Whole runs of a request, and what holds of every run.

use crate::calendar::CalendarDate;
use crate::fields::SubmissionView;
use crate::form::{first_violation, resolved};
use crate::pipeline::{
    after_uploads, begun, step, upload_action, upload_failed, uploaded, ActionView, Outcome,
    Phase, PipelineView, SettingsView,
};
use vstd::prelude::*;

verus! {

/// The actions that a request names, one for each report of the caller, from
/// the state `s` on.
pub open spec fn run(s: PipelineView, outcomes: Seq<Outcome>) -> Seq<ActionView>
    decreases outcomes.len(),
{
    if outcomes.len() == 0 {
        Seq::empty()
    } else {
        seq![step(s, outcomes[0]).1] + run(step(s, outcomes[0]).0, outcomes.skip(1))
    }
}

/// The state of a request after the reports of the caller, from the state
/// `s` on.
pub open spec fn state_after(s: PipelineView, outcomes: Seq<Outcome>) -> PipelineView
    decreases outcomes.len(),
{
    if outcomes.len() == 0 {
        s
    } else {
        state_after(step(s, outcomes[0]).0, outcomes.skip(1))
    }
}

/// Whether an action makes the post: writing it, committing and pushing it,
/// or scheduling its campaign.
pub open spec fn publishes(action: ActionView) -> bool {
    action is WritePost || action is CommitAndPush || action is ScheduleCampaign
}

/// The place of a phase in the order of the stages.
pub open spec fn rank(phase: Phase) -> int {
    match phase {
        Phase::Cloning => 0,
        Phase::Uploading => 1,
        Phase::Writing => 2,
        Phase::Committing => 3,
        Phase::Scheduling => 4,
        Phase::Done => 5,
    }
}

/// Whether `action` is what a request in `phase` waits for.
pub open spec fn awaited(phase: Phase, action: ActionView) -> bool {
    match phase {
        Phase::Cloning => action is CloneRepository,
        Phase::Uploading => action is Upload,
        Phase::Writing => action is WritePost,
        Phase::Committing => action is CommitAndPush,
        Phase::Scheduling => action is ScheduleCampaign,
        Phase::Done => action is Finish,
    }
}

/// A step never goes back in the order of the stages, and the action that it
/// names is the one that the new phase waits for; an action that makes the
/// post leads behind the uploads; a request that has ended stays as it is
/// and answers as before; and a report of failure ends a request.
pub proof fn lemma_step_order(s: PipelineView, outcome: Outcome)
    ensures
        rank(step(s, outcome).0.phase) >= rank(s.phase),
        awaited(step(s, outcome).0.phase, step(s, outcome).1),
        publishes(step(s, outcome).1) ==> 2 <= rank(step(s, outcome).0.phase) <= 4,
        s.phase == Phase::Done ==> step(s, outcome) == (
            s,
            ActionView::Finish { failure: s.failure },
        ),
        outcome == Outcome::Failed && s.phase != Phase::Done ==> step(s, outcome).0.phase
            == Phase::Done && step(s, outcome).0.failure is Some && step(s, outcome).1
            == (ActionView::Finish { failure: step(s, outcome).0.failure }),
{
}

/// No run goes back in the order of the stages.
pub proof fn lemma_run_order(s: PipelineView, outcomes: Seq<Outcome>)
    ensures
        rank(state_after(s, outcomes).phase) >= rank(s.phase),
        run(s, outcomes).len() == outcomes.len(),
    decreases outcomes.len(),
{
    if outcomes.len() > 0 {
        lemma_step_order(s, outcomes[0]);
        lemma_run_order(step(s, outcomes[0]).0, outcomes.skip(1));
    }
}

/// A request that has ended answers every further report in the same way:
/// its terminal state is final.
pub proof fn lemma_ended_request_stays_ended(s: PipelineView, outcomes: Seq<Outcome>)
    requires
        s.phase == Phase::Done,
    ensures
        state_after(s, outcomes) == s,
        run(s, outcomes).len() == outcomes.len(),
        forall|i: int|
            0 <= i < outcomes.len() ==> #[trigger] run(s, outcomes)[i] == (ActionView::Finish {
                failure: s.failure,
            }),
    decreases outcomes.len(),
{
    if outcomes.len() > 0 {
        lemma_step_order(s, outcomes[0]);
        lemma_ended_request_stays_ended(s, outcomes.skip(1));
        let rest = run(s, outcomes.skip(1));
        assert forall|i: int| 0 <= i < outcomes.len() implies #[trigger] run(s, outcomes)[i] == (
        ActionView::Finish { failure: s.failure }) by {
            if i > 0 {
                assert(run(s, outcomes)[i] == rest[i - 1]);
            }
        }
    }
}

/// A failure ends the request. If the caller reports a failure while the
/// request has not ended, then the request ends with a failure, and to that
/// report and to every later one it gives this failure as its answer: no
/// later stage runs.
pub proof fn lemma_failure_ends_the_request(s: PipelineView, outcomes: Seq<Outcome>, k: int)
    requires
        0 <= k < outcomes.len(),
        state_after(s, outcomes.take(k)).phase != Phase::Done,
        outcomes[k] == Outcome::Failed,
    ensures
        run(s, outcomes).len() == outcomes.len(),
        step(state_after(s, outcomes.take(k)), Outcome::Failed).0.failure is Some,
        forall|i: int|
            k <= i < outcomes.len() ==> #[trigger] run(s, outcomes)[i] == (ActionView::Finish {
                failure: step(state_after(s, outcomes.take(k)), Outcome::Failed).0.failure,
            }),
    decreases k,
{
    let first = step(s, outcomes[0]);
    let rest = outcomes.skip(1);
    let tail = run(first.0, rest);
    lemma_run_order(s, outcomes);
    lemma_step_order(s, outcomes[0]);
    if k == 0 {
        assert(outcomes.take(0) =~= Seq::<Outcome>::empty());
        lemma_ended_request_stays_ended(first.0, rest);
        assert forall|i: int| 0 <= i < outcomes.len() implies #[trigger] run(s, outcomes)[i] == (
        ActionView::Finish { failure: first.0.failure }) by {
            if i > 0 {
                assert(run(s, outcomes)[i] == tail[i - 1]);
            }
        }
    } else {
        assert(outcomes.take(k).skip(1) =~= rest.take(k - 1));
        assert(outcomes.take(k)[0] == outcomes[0]);
        lemma_failure_ends_the_request(first.0, rest, k - 1);
        let failure = step(state_after(s, outcomes.take(k)), Outcome::Failed).0.failure;
        assert forall|i: int| k <= i < outcomes.len() implies #[trigger] run(s, outcomes)[i] == (
        ActionView::Finish { failure }) by {
            assert(run(s, outcomes)[i] == tail[i - 1]);
        }
    }
}

/// Every file is uploaded once, in the order of arrival. While the caller
/// reports success, a request that waits for its working copy names the
/// uploads of its files one after the other, each once.
pub proof fn lemma_every_file_is_uploaded_once(s: PipelineView, outcomes: Seq<Outcome>)
    requires
        s.phase == Phase::Cloning,
        outcomes.len() <= s.uploads.len(),
        forall|i: int| 0 <= i < outcomes.len() ==> outcomes[i] == Outcome::Succeeded,
    ensures
        run(s, outcomes).len() == outcomes.len(),
        forall|i: int|
            0 <= i < outcomes.len() ==> #[trigger] run(s, outcomes)[i] == upload_action(s, i),
{
    lemma_run_order(s, outcomes);
    if outcomes.len() > 0 {
        let first = step(s, outcomes[0]);
        let rest = outcomes.skip(1);
        let tail = run(first.0, rest);
        lemma_uploads_in_order(first.0, rest);
        assert forall|i: int| 0 <= i < outcomes.len() implies #[trigger] run(s, outcomes)[i]
            == upload_action(s, i) by {
            if i > 0 {
                assert(run(s, outcomes)[i] == tail[i - 1]);
                assert(tail[i - 1] == upload_action(first.0, first.0.next + 1 + (i - 1)));
            }
        }
    }
}

proof fn lemma_uploads_in_order(s: PipelineView, outcomes: Seq<Outcome>)
    requires
        s.phase == Phase::Uploading,
        s.next + 1 + outcomes.len() <= s.uploads.len(),
        forall|i: int| 0 <= i < outcomes.len() ==> outcomes[i] == Outcome::Succeeded,
    ensures
        run(s, outcomes).len() == outcomes.len(),
        forall|i: int|
            0 <= i < outcomes.len() ==> #[trigger] run(s, outcomes)[i] == upload_action(
                s,
                s.next + 1 + i,
            ),
    decreases outcomes.len(),
{
    lemma_run_order(s, outcomes);
    if outcomes.len() > 0 {
        let first = step(s, outcomes[0]);
        let rest = outcomes.skip(1);
        let tail = run(first.0, rest);
        assert(first.0.uploads == s.uploads);
        assert(first.0.next == s.next + 1);
        lemma_uploads_in_order(first.0, rest);
        assert forall|i: int| 0 <= i < outcomes.len() implies #[trigger] run(s, outcomes)[i]
            == upload_action(s, s.next + 1 + i) by {
            if i > 0 {
                assert(run(s, outcomes)[i] == tail[i - 1]);
                assert(tail[i - 1] == upload_action(first.0, first.0.next + 1 + (i - 1)));
            }
        }
    }
}

/// A failed upload ends the request. If the report on an upload, the one at
/// index `k`, says that it failed, then the run names no action that makes
/// the post: nothing is written, committed, pushed or scheduled, before or
/// after. From that report on the request only answers that the upload
/// failed.
pub proof fn lemma_failed_upload_ends_the_request(
    s: PipelineView,
    outcomes: Seq<Outcome>,
    k: int,
)
    requires
        rank(s.phase) <= 1,
        0 <= k < outcomes.len(),
        state_after(s, outcomes.take(k)).phase == Phase::Uploading,
        outcomes[k] == Outcome::Failed,
    ensures
        run(s, outcomes).len() == outcomes.len(),
        forall|i: int| 0 <= i < outcomes.len() ==> !publishes(#[trigger] run(s, outcomes)[i]),
        forall|i: int|
            k <= i < outcomes.len() ==> #[trigger] run(s, outcomes)[i] == (ActionView::Finish {
                failure: Some(upload_failed()),
            }),
    decreases k,
{
    let first = step(s, outcomes[0]);
    let rest = outcomes.skip(1);
    let tail = run(first.0, rest);
    lemma_run_order(s, outcomes);
    lemma_step_order(s, outcomes[0]);
    if k == 0 {
        assert(outcomes.take(0) =~= Seq::<Outcome>::empty());
        assert(s.phase == Phase::Uploading);
        lemma_ended_request_stays_ended(first.0, rest);
        assert forall|i: int| 0 <= i < outcomes.len() implies #[trigger] run(s, outcomes)[i] == (
        ActionView::Finish { failure: Some(upload_failed()) }) by {
            if i > 0 {
                assert(run(s, outcomes)[i] == tail[i - 1]);
            }
        }
    } else {
        assert(outcomes.take(k).skip(1) =~= rest.take(k - 1));
        assert(outcomes.take(k)[0] == outcomes[0]);
        lemma_run_order(first.0, rest.take(k - 1));
        assert(rank(first.0.phase) <= 1);
        lemma_failed_upload_ends_the_request(first.0, rest, k - 1);
        assert forall|i: int| 0 <= i < outcomes.len() implies !publishes(
            #[trigger] run(s, outcomes)[i],
        ) by {
            if i > 0 {
                assert(run(s, outcomes)[i] == tail[i - 1]);
            }
        }
        assert forall|i: int| k <= i < outcomes.len() implies #[trigger] run(s, outcomes)[i] == (
        ActionView::Finish { failure: Some(upload_failed()) }) by {
            assert(run(s, outcomes)[i] == tail[i - 1]);
        }
    }
}

/// A failed upload prevents the commit. If a request gets as far as an
/// upload and the caller reports that the upload failed, then from its start
/// to its end the request names no action that makes the post.
pub proof fn lemma_failed_upload_prevents_the_commit(
    settings: SettingsView,
    submission: SubmissionView,
    today: CalendarDate,
    outcomes: Seq<Outcome>,
    k: int,
)
    requires
        0 <= k < outcomes.len(),
        state_after(begun(settings, submission, today).0, outcomes.take(k)).phase
            == Phase::Uploading,
        outcomes[k] == Outcome::Failed,
    ensures
        !publishes(begun(settings, submission, today).1),
        run(begun(settings, submission, today).0, outcomes).len() == outcomes.len(),
        forall|i: int|
            0 <= i < outcomes.len() ==> !publishes(
                #[trigger] run(begun(settings, submission, today).0, outcomes)[i],
            ),
        forall|i: int|
            k <= i < outcomes.len() ==> #[trigger] run(
                begun(settings, submission, today).0,
                outcomes,
            )[i] == (ActionView::Finish { failure: Some(upload_failed()) }),
{
    let start = begun(settings, submission, today).0;
    if start.phase == Phase::Done {
        lemma_ended_request_stays_ended(start, outcomes.take(k));
    }
    lemma_failed_upload_ends_the_request(start, outcomes, k);
}

/// A record without a date does not get past validation.
proof fn lemma_no_date_no_post(s: PipelineView)
    requires
        s.form.date.len() == 0,
    ensures
        after_uploads(s).0.phase == Phase::Done,
        after_uploads(s).0.failure is Some,
        after_uploads(s).0.form.date.len() == 0,
        after_uploads(s).1 is Finish,
{
    match resolved(s.form) {
        None => {},
        Some(form) => {
            assert(form.date == s.form.date);
            assert(first_violation(form) is Some);
        },
    }
}

proof fn lemma_no_date_run(s: PipelineView, outcomes: Seq<Outcome>)
    requires
        s.form.date.len() == 0,
        rank(s.phase) <= 1 || (s.phase == Phase::Done && s.failure is Some),
    ensures
        run(s, outcomes).len() == outcomes.len(),
        forall|i: int| 0 <= i < outcomes.len() ==> !publishes(#[trigger] run(s, outcomes)[i]),
        forall|i: int|
            0 <= i < outcomes.len() ==> #[trigger] run(s, outcomes)[i] != (ActionView::Finish {
                failure: None,
            }),
        s.uploads.len() == 0 ==> forall|i: int|
            0 <= i < outcomes.len() ==> !(#[trigger] run(s, outcomes)[i] is Upload),
    decreases outcomes.len(),
{
    lemma_run_order(s, outcomes);
    if outcomes.len() > 0 {
        let first = step(s, outcomes[0]);
        let rest = outcomes.skip(1);
        let tail = run(first.0, rest);
        lemma_step_order(s, outcomes[0]);
        lemma_no_date_no_post(s);
        if s.phase == Phase::Uploading && s.next < s.uploads.len() {
            lemma_no_date_no_post(uploaded(s));
        }
        assert(first.0.form.date.len() == 0);
        assert(first.0.uploads == s.uploads);
        lemma_no_date_run(first.0, rest);
        assert forall|i: int| 0 <= i < outcomes.len() implies !publishes(
            #[trigger] run(s, outcomes)[i],
        ) && run(s, outcomes)[i] != (ActionView::Finish { failure: None }) by {
            if i > 0 {
                assert(run(s, outcomes)[i] == tail[i - 1]);
            }
        }
        if s.uploads.len() == 0 {
            assert forall|i: int| 0 <= i < outcomes.len() implies !(#[trigger] run(s, outcomes)[i]
                is Upload) by {
                if i > 0 {
                    assert(run(s, outcomes)[i] == tail[i - 1]);
                }
            }
        }
    }
}

/// A record without a date is never published. Whatever the caller reports,
/// the request names no action that makes the post (nothing is written,
/// committed, pushed or scheduled) and it never answers that the post is
/// published. Where the submission brought no file, it names no upload
/// either.
pub proof fn lemma_missing_date_is_never_published(
    settings: SettingsView,
    submission: SubmissionView,
    today: CalendarDate,
    outcomes: Seq<Outcome>,
)
    requires
        submission.form.date.len() == 0,
    ensures
        !publishes(begun(settings, submission, today).1),
        begun(settings, submission, today).1 != (ActionView::Finish { failure: None }),
        !(begun(settings, submission, today).1 is Upload),
        run(begun(settings, submission, today).0, outcomes).len() == outcomes.len(),
        forall|i: int|
            0 <= i < outcomes.len() ==> !publishes(
                #[trigger] run(begun(settings, submission, today).0, outcomes)[i],
            ),
        forall|i: int|
            0 <= i < outcomes.len() ==> #[trigger] run(
                begun(settings, submission, today).0,
                outcomes,
            )[i] != (ActionView::Finish { failure: None }),
        submission.files.len() == 0 ==> forall|i: int|
            0 <= i < outcomes.len() ==> !(#[trigger] run(
                begun(settings, submission, today).0,
                outcomes,
            )[i] is Upload),
{
    let start = begun(settings, submission, today).0;
    lemma_no_date_run(start, outcomes);
}

} // verus!
