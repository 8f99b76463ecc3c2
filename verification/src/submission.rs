//! Submitting one slice to the driver: four parameter and data buffers, one
//! picture, and the release of the buffers whatever happens to the picture.

use vstd::prelude::*;

use crate::error::VaError;
use crate::error::VaErrorView;
use crate::sys::buffer_type::VAIQMatrixBufferType;
use crate::sys::buffer_type::VAPictureParameterBufferType;
use crate::sys::buffer_type::VASliceDataBufferType;
use crate::sys::buffer_type::VASliceParameterBufferType;
use crate::sys::CallReply;
use crate::sys::VABufferID;
use crate::sys::VAContextID;
use crate::sys::VASurfaceID;
use crate::text::decimal;
use crate::text::decimal_text;
use crate::text::joined;
use crate::text::lemma_single_digits;

verus! {

/// Where a submission stands.
#[derive(Clone, Copy, Debug, PartialEq, Eq, Structural)]
pub enum SubmitPhase {
    /// Fewer than four buffers exist.
    Create,
    Begin,
    Render,
    End,
    /// Rendering failed; the picture still has to be ended.
    EndAfterFailure,
    Sync,
    /// Nothing is left but to destroy the buffers that exist.
    Destroy,
    Done,
}

/// The libva call that a submission needs next.
#[derive(Clone, Copy, Debug, PartialEq, Eq, Structural)]
pub enum SubmitAction {
    /// `vaCreateBuffer` with the data of this type.
    CreateBuffer { context: VAContextID, buf_type: u32 },
    /// `vaBeginPicture`.
    BeginPicture { context: VAContextID, surface: VASurfaceID },
    /// `vaRenderPicture` with the four buffers in creation order.
    RenderPicture { context: VAContextID },
    /// `vaEndPicture`.
    EndPicture { context: VAContextID },
    /// `vaSyncSurface`.
    SyncSurface { surface: VASurfaceID },
    /// `vaDestroyBuffer`.
    DestroyBuffer { id: VABufferID },
    /// Nothing: the outcome is known.
    Finish,
}

/// What a call left behind: its status, and for `vaCreateBuffer` the new
/// buffer.
#[derive(Clone, Debug)]
pub struct SubmitReply {
    pub call: CallReply,
    pub buffer: VABufferID,
}

/// The state of a [`Submission`].
#[verifier::ext_equal]
pub struct SubmissionView {
    /// The context that decodes the slice.
    pub context: VAContextID,
    /// The surface that is rendered into.
    pub surface: VASurfaceID,
    pub phase: SubmitPhase,
    /// The buffers that exist, in creation order.
    pub buffers: Seq<VABufferID>,
    /// The first failure.
    pub error: Option<VaErrorView>,
}

/// Type of the `n`-th buffer of a submission.
pub open spec fn nth_buffer_type(n: nat) -> u32 {
    if n == 0 {
        VAPictureParameterBufferType
    } else if n == 1 {
        VAIQMatrixBufferType
    } else if n == 2 {
        VASliceParameterBufferType
    } else {
        VASliceDataBufferType
    }
}

/// The words before the driver's text when a buffer cannot be created.
pub open spec fn create_prefix(buf_type: u32) -> Seq<char> {
    "vaCreateBuffer(type="@ + decimal(buf_type as int) + "): "@
}

impl SubmissionView {
    /// No call has been made.
    pub open spec fn initial(context: VAContextID, surface: VASurfaceID) -> Self {
        SubmissionView {
            context,
            surface,
            phase: SubmitPhase::Create,
            buffers: seq![],
            error: None,
        }
    }

    /// The parts of the state agree with the phase.
    pub open spec fn wf(self) -> bool {
        match self.phase {
            SubmitPhase::Create => self.buffers.len() < 4 && self.error is None,
            SubmitPhase::Begin | SubmitPhase::Render | SubmitPhase::End | SubmitPhase::Sync =>
                self.buffers.len() == 4 && self.error is None,
            SubmitPhase::EndAfterFailure => self.buffers.len() == 4 && self.error is Some,
            SubmitPhase::Destroy => 0 < self.buffers.len() <= 4,
            SubmitPhase::Done => self.buffers.len() == 0,
        }
    }

    /// The call that the state needs.
    pub open spec fn action(self) -> SubmitAction {
        match self.phase {
            SubmitPhase::Create => SubmitAction::CreateBuffer {
                context: self.context,
                buf_type: nth_buffer_type(self.buffers.len()),
            },
            SubmitPhase::Begin => SubmitAction::BeginPicture {
                context: self.context,
                surface: self.surface,
            },
            SubmitPhase::Render => SubmitAction::RenderPicture { context: self.context },
            SubmitPhase::End | SubmitPhase::EndAfterFailure => SubmitAction::EndPicture {
                context: self.context,
            },
            SubmitPhase::Sync => SubmitAction::SyncSurface { surface: self.surface },
            SubmitPhase::Destroy => SubmitAction::DestroyBuffer { id: self.buffers.last() },
            SubmitPhase::Done => SubmitAction::Finish,
        }
    }

    /// The state with another phase.
    pub open spec fn at(self, phase: SubmitPhase) -> Self {
        SubmissionView { phase, ..self }
    }

    /// The state in another phase, with a failure.
    pub open spec fn failed(self, phase: SubmitPhase, error: VaErrorView) -> Self {
        SubmissionView { phase, error: Some(error), ..self }
    }

    /// The state after the reply to its action.
    pub open spec fn next(self, reply: SubmitReply) -> Self {
        match self.phase {
            SubmitPhase::Create => if !reply.call.ok() {
                self.failed(
                    if self.buffers.len() == 0 {
                        SubmitPhase::Done
                    } else {
                        SubmitPhase::Destroy
                    },
                    reply.call.failure_as(create_prefix(nth_buffer_type(self.buffers.len()))),
                )
            } else {
                SubmissionView {
                    phase: if self.buffers.len() == 3 {
                        SubmitPhase::Begin
                    } else {
                        SubmitPhase::Create
                    },
                    buffers: self.buffers.push(reply.buffer),
                    ..self
                }
            },
            SubmitPhase::Begin => if reply.call.ok() {
                self.at(SubmitPhase::Render)
            } else {
                self.failed(SubmitPhase::Destroy, reply.call.failure())
            },
            SubmitPhase::Render => if reply.call.ok() {
                self.at(SubmitPhase::End)
            } else {
                self.failed(SubmitPhase::EndAfterFailure, reply.call.failure())
            },
            SubmitPhase::End => if reply.call.ok() {
                self.at(SubmitPhase::Sync)
            } else {
                self.failed(SubmitPhase::Destroy, reply.call.failure())
            },
            SubmitPhase::EndAfterFailure => self.at(SubmitPhase::Destroy),
            SubmitPhase::Sync => if reply.call.ok() {
                self.at(SubmitPhase::Destroy)
            } else {
                self.failed(SubmitPhase::Destroy, reply.call.failure())
            },
            SubmitPhase::Destroy => SubmissionView {
                phase: if self.buffers.len() == 1 {
                    SubmitPhase::Done
                } else {
                    SubmitPhase::Destroy
                },
                buffers: self.buffers.drop_last(),
                ..self
            },
            SubmitPhase::Done => self,
        }
    }

    /// The state after a sequence of replies.
    pub open spec fn run(self, replies: Seq<SubmitReply>) -> Self
        decreases replies.len(),
    {
        if replies.len() == 0 {
            self
        } else {
            self.next(replies[0]).run(replies.skip(1))
        }
    }

    /// The calls that a sequence of replies answers.
    pub open spec fn trace(self, replies: Seq<SubmitReply>) -> Seq<SubmitAction>
        decreases replies.len(),
    {
        if replies.len() == 0 {
            seq![]
        } else {
            seq![self.action()] + self.next(replies[0]).trace(replies.skip(1))
        }
    }

    /// The buffers that a sequence of replies brings, in order.
    pub open spec fn created(self, replies: Seq<SubmitReply>) -> Seq<VABufferID>
        decreases replies.len(),
    {
        if replies.len() == 0 {
            seq![]
        } else {
            (if self.action() is CreateBuffer && replies[0].call.ok() {
                seq![replies[0].buffer]
            } else {
                seq![]
            }) + self.next(replies[0]).created(replies.skip(1))
        }
    }
}

/// The submission of one slice, as a sequence of calls and replies: create
/// four buffers, begin, render, end and sync the picture, and destroy the
/// buffers in reverse order of creation. A failure skips to the destruction
/// of the buffers that exist; a render failure still ends the picture.
pub struct Submission {
    context: VAContextID,
    surface: VASurfaceID,
    phase: SubmitPhase,
    buffers: Vec<VABufferID>,
    error: Option<VaError>,
}

impl View for Submission {
    type V = SubmissionView;

    closed spec fn view(&self) -> SubmissionView {
        SubmissionView {
            context: self.context,
            surface: self.surface,
            phase: self.phase,
            buffers: self.buffers@,
            error: match self.error {
                Some(error) => Some(error@),
                None => None,
            },
        }
    }
}

impl Submission {
    /// A submission to a context that renders into a surface, before its
    /// first call.
    pub fn new(context: VAContextID, surface: VASurfaceID) -> (submission: Self)
        ensures
            submission@ == SubmissionView::initial(context, surface),
            submission@.wf(),
    {
        Submission {
            context,
            surface,
            phase: SubmitPhase::Create,
            buffers: Vec::new(),
            error: None,
        }
    }

    /// The call to make next.
    pub fn action(&self) -> (action: SubmitAction)
        requires
            self@.wf(),
        ensures
            action == self@.action(),
    {
        match self.phase {
            SubmitPhase::Create => SubmitAction::CreateBuffer {
                context: self.context,
                buf_type: buffer_type_at(self.buffers.len()),
            },
            SubmitPhase::Begin => SubmitAction::BeginPicture {
                context: self.context,
                surface: self.surface,
            },
            SubmitPhase::Render => SubmitAction::RenderPicture { context: self.context },
            SubmitPhase::End => SubmitAction::EndPicture { context: self.context },
            SubmitPhase::EndAfterFailure => SubmitAction::EndPicture { context: self.context },
            SubmitPhase::Sync => SubmitAction::SyncSurface { surface: self.surface },
            SubmitPhase::Destroy => SubmitAction::DestroyBuffer {
                id: self.buffers[self.buffers.len() - 1],
            },
            SubmitPhase::Done => SubmitAction::Finish,
        }
    }

    /// The buffers that exist, in creation order.
    pub fn buffers(&self) -> (buffers: &[VABufferID])
        ensures
            buffers@ == self@.buffers,
    {
        self.buffers.as_slice()
    }

    /// Take in the reply to the call that [`Submission::action`] asked for.
    pub fn advance(&mut self, reply: SubmitReply)
        requires
            old(self)@.wf(),
        ensures
            final(self)@ == old(self)@.next(reply),
            final(self)@.wf(),
    {
        match self.phase {
            SubmitPhase::Create => {
                let buf_type: u32 = buffer_type_at(self.buffers.len());
                let mut prefix: String = joined(
                    "vaCreateBuffer(type=",
                    decimal_text(buf_type as i64).as_str(),
                );
                prefix.append("): ");
                match reply.call.check_as(prefix.as_str()) {
                    Ok(()) => {
                        self.buffers.push(reply.buffer);
                        if self.buffers.len() == 4 {
                            self.phase = SubmitPhase::Begin;
                        }
                    },
                    Err(error) => {
                        self.phase = if self.buffers.len() == 0 {
                            SubmitPhase::Done
                        } else {
                            SubmitPhase::Destroy
                        };
                        self.error = Some(error);
                    },
                }
            },
            SubmitPhase::Begin => {
                self.after_call(reply.call, SubmitPhase::Render, SubmitPhase::Destroy);
            },
            SubmitPhase::Render => {
                self.after_call(reply.call, SubmitPhase::End, SubmitPhase::EndAfterFailure);
            },
            SubmitPhase::End => {
                self.after_call(reply.call, SubmitPhase::Sync, SubmitPhase::Destroy);
            },
            SubmitPhase::EndAfterFailure => {
                self.phase = SubmitPhase::Destroy;
            },
            SubmitPhase::Sync => {
                self.after_call(reply.call, SubmitPhase::Destroy, SubmitPhase::Destroy);
            },
            SubmitPhase::Destroy => {
                let _ = self.buffers.pop();
                if self.buffers.len() == 0 {
                    self.phase = SubmitPhase::Done;
                }
            },
            SubmitPhase::Done => {},
        }
    }

    /// Go on to `good` or, with the failure noted, to `bad`.
    fn after_call(&mut self, call: CallReply, good: SubmitPhase, bad: SubmitPhase)
        ensures
            final(self)@ == if call.ok() {
                old(self)@.at(good)
            } else {
                old(self)@.failed(bad, call.failure())
            },
    {
        match call.check() {
            Ok(()) => {
                self.phase = good;
            },
            Err(error) => {
                self.phase = bad;
                self.error = Some(error);
            },
        }
    }

    /// The outcome of a finished submission: the first failure, if any.
    pub fn finish(self) -> (outcome: Result<(), VaError>)
        requires
            self@.phase == SubmitPhase::Done,
        ensures
            match outcome {
                Ok(()) => self@.error is None,
                Err(error) => self@.error == Some(error@),
            },
    {
        match self.error {
            Some(error) => Err(error),
            None => Ok(()),
        }
    }
}

fn buffer_type_at(n: usize) -> (buf_type: u32)
    ensures
        buf_type == nth_buffer_type(n as nat),
{
    match n {
        0 => VAPictureParameterBufferType,
        1 => VAIQMatrixBufferType,
        2 => VASliceParameterBufferType,
        _ => VASliceDataBufferType,
    }
}

/// The buffers that a sequence of calls destroys, in order.
pub open spec fn destroyed(actions: Seq<SubmitAction>) -> Seq<VABufferID>
    decreases actions.len(),
{
    if actions.len() == 0 {
        seq![]
    } else {
        match actions[0] {
            SubmitAction::DestroyBuffer { id } => seq![id] + destroyed(actions.skip(1)),
            _ => destroyed(actions.skip(1)),
        }
    }
}

/// How often a call occurs in a sequence of calls.
pub open spec fn count_of(actions: Seq<SubmitAction>, action: SubmitAction) -> nat
    decreases actions.len(),
{
    if actions.len() == 0 {
        0
    } else {
        count_of(actions.skip(1), action) + if actions[0] == action {
            1nat
        } else {
            0nat
        }
    }
}

/// The first step of a run.
proof fn lemma_first_step(v: SubmissionView, replies: Seq<SubmitReply>)
    requires
        replies.len() > 0,
    ensures
        v.run(replies) == v.next(replies[0]).run(replies.skip(1)),
        v.trace(replies)[0] == v.action(),
        v.trace(replies).skip(1) == v.next(replies[0]).trace(replies.skip(1)),
        forall|action: SubmitAction| #[trigger]
            count_of(v.trace(replies), action) == count_of(
                v.next(replies[0]).trace(replies.skip(1)),
                action,
            ) + if v.action() == action {
                1nat
            } else {
                0nat
            },
{
    assert(v.trace(replies).skip(1) =~= v.next(replies[0]).trace(replies.skip(1)));
}

/// Every reply keeps the parts of the state in agreement.
proof fn lemma_run_keeps_wf(v: SubmissionView, replies: Seq<SubmitReply>)
    requires
        v.wf(),
    ensures
        v.run(replies).wf(),
    decreases replies.len(),
{
    if replies.len() > 0 {
        lemma_run_keeps_wf(v.next(replies[0]), replies.skip(1));
    }
}

/// A finished submission has destroyed the buffers that it had and those that
/// it created, last first; it creates none once it has left the first phase.
proof fn lemma_destroys_all(v: SubmissionView, replies: Seq<SubmitReply>)
    requires
        v.wf(),
        v.run(replies).phase == SubmitPhase::Done,
    ensures
        destroyed(v.trace(replies)) == (v.buffers + v.created(replies)).reverse(),
        v.phase != SubmitPhase::Create ==> v.created(replies) == Seq::<VABufferID>::empty(),
    decreases replies.len(),
{
    let all = v.buffers + v.created(replies);
    if replies.len() == 0 {
        assert(all.reverse() =~= seq![]);
    } else {
        lemma_first_step(v, replies);
        let (after, rest) = (v.next(replies[0]), replies.skip(1));
        lemma_destroys_all(after, rest);
        if v.phase == SubmitPhase::Destroy {
            assert(all.reverse() =~= seq![v.buffers.last()] + (after.buffers + after.created(
                rest,
            )).reverse());
        } else {
            assert(all =~= after.buffers + after.created(rest));
        }
    }
}

/// Every finished submission has destroyed each buffer that it created exactly
/// once, in reverse order of creation, whatever the replies.
pub proof fn law_buffers_are_destroyed_in_reverse(
    context: VAContextID,
    surface: VASurfaceID,
    replies: Seq<SubmitReply>,
)
    requires
        SubmissionView::initial(context, surface).run(replies).phase == SubmitPhase::Done,
    ensures
        ({
            let v = SubmissionView::initial(context, surface);
            &&& destroyed(v.trace(replies)) == v.created(replies).reverse()
            &&& v.run(replies).buffers.len() == 0
        }),
{
    let v = SubmissionView::initial(context, surface);
    lemma_run_keeps_wf(v, replies);
    lemma_destroys_all(v, replies);
    assert(v.buffers + v.created(replies) =~= v.created(replies));
}

/// From the end of the picture on, no picture call is made and the error
/// stays as it is.
proof fn lemma_destroying_only_destroys(v: SubmissionView, replies: Seq<SubmitReply>)
    requires
        v.wf(),
        v.phase == SubmitPhase::Destroy || v.phase == SubmitPhase::Done,
    ensures
        forall|action: SubmitAction|
            action !is DestroyBuffer && action !is Finish ==> #[trigger] count_of(
                v.trace(replies),
                action,
            ) == 0,
        v.run(replies).error == v.error,
    decreases replies.len(),
{
    if replies.len() > 0 {
        lemma_first_step(v, replies);
        lemma_destroying_only_destroys(v.next(replies[0]), replies.skip(1));
    }
}

/// `vaBeginPicture` is called once, on the context and the surface of the
/// submission, and is matched by exactly one `vaEndPicture` on that context
/// where it succeeded and by none where it failed.
pub proof fn law_begin_is_matched_by_end(v: SubmissionView, replies: Seq<SubmitReply>)
    requires
        v.wf(),
        v.phase == SubmitPhase::Begin,
        v.run(replies).phase == SubmitPhase::Done,
    ensures
        count_of(
            v.trace(replies),
            SubmitAction::BeginPicture { context: v.context, surface: v.surface },
        ) == 1,
        count_of(v.trace(replies), SubmitAction::EndPicture { context: v.context }) == if replies[0].call.ok() {
            1nat
        } else {
            0nat
        },
{
    assert(replies.len() > 0);
    lemma_first_step(v, replies);
    let (v1, r1) = (v.next(replies[0]), replies.skip(1));
    if !replies[0].call.ok() {
        lemma_destroying_only_destroys(v1, r1);
    } else {
        assert(r1.len() > 0);
        lemma_first_step(v1, r1);
        let (v2, r2) = (v1.next(r1[0]), r1.skip(1));
        assert(r2.len() > 0);
        lemma_first_step(v2, r2);
        let (v3, r3) = (v2.next(r2[0]), r2.skip(1));
        if v3.phase == SubmitPhase::Sync {
            assert(r3.len() > 0);
            lemma_first_step(v3, r3);
            lemma_destroying_only_destroys(v3.next(r3[0]), r3.skip(1));
        } else {
            lemma_destroying_only_destroys(v3, r3);
        }
    }
}

/// A finished submission succeeded exactly when all eight calls that create
/// the buffers and decode the picture did.
pub proof fn law_success_needs_every_call(
    context: VAContextID,
    surface: VASurfaceID,
    replies: Seq<SubmitReply>,
)
    requires
        SubmissionView::initial(context, surface).run(replies).phase == SubmitPhase::Done,
    ensures
        SubmissionView::initial(context, surface).run(replies).error is None <==> replies.len() >= 8 && forall|
            i: int,
        |
            0 <= i < 8 ==> (#[trigger] replies[i]).call.ok(),
{
    lemma_success(SubmissionView::initial(context, surface), replies);
}

/// Calls that a submission has left before the buffers are destroyed.
spec fn calls_left(v: SubmissionView) -> nat {
    match v.phase {
        SubmitPhase::Create => (8 - v.buffers.len()) as nat,
        SubmitPhase::Begin => 4,
        SubmitPhase::Render => 3,
        SubmitPhase::End => 2,
        SubmitPhase::Sync => 1,
        _ => 0,
    }
}

proof fn lemma_success(v: SubmissionView, replies: Seq<SubmitReply>)
    requires
        v.wf(),
        v.run(replies).phase == SubmitPhase::Done,
    ensures
        v.run(replies).error is None <==> v.error is None && replies.len() >= calls_left(v)
            && forall|i: int| 0 <= i < calls_left(v) ==> (#[trigger] replies[i]).call.ok(),
    decreases replies.len(),
{
    if replies.len() > 0 {
        let after = v.next(replies[0]);
        let rest = replies.skip(1);
        lemma_success(after, rest);
        assert(forall|i: int| 0 <= i < rest.len() ==> #[trigger] rest[i] == replies[i + 1]);
        if calls_left(v) > 0 {
            if replies[0].call.ok() {
                assert(calls_left(after) == calls_left(v) - 1);
                if v.run(replies).error is None {
                    assert forall|i: int| 0 <= i < calls_left(v) implies (
                    #[trigger] replies[i]).call.ok() by {
                        if i > 0 {
                            assert(rest[i - 1].call.ok());
                        }
                    }
                } else if replies.len() >= calls_left(v) && forall|i: int|
                    0 <= i < calls_left(v) ==> (#[trigger] replies[i]).call.ok() {
                    assert forall|i: int| 0 <= i < calls_left(after) implies (
                    #[trigger] rest[i]).call.ok() by {
                        assert(replies[i + 1].call.ok());
                    }
                }
            } else {
                assert(after.error is Some);
            }
        }
    }
}

/// Calls that a submission has left at most.
spec fn most_calls_left(v: SubmissionView) -> nat {
    match v.phase {
        SubmitPhase::Create => (12 - v.buffers.len()) as nat,
        SubmitPhase::Begin => 8,
        SubmitPhase::Render => 7,
        SubmitPhase::End => 6,
        SubmitPhase::EndAfterFailure => 5,
        SubmitPhase::Sync => 5,
        SubmitPhase::Destroy => v.buffers.len(),
        SubmitPhase::Done => 0,
    }
}

proof fn lemma_terminates(v: SubmissionView, replies: Seq<SubmitReply>)
    requires
        v.wf(),
        replies.len() >= most_calls_left(v),
    ensures
        v.run(replies).phase == SubmitPhase::Done,
    decreases replies.len(),
{
    if replies.len() > 0 {
        lemma_terminates(v.next(replies[0]), replies.skip(1));
    }
}

/// A submission is done after twelve calls at most, whatever the replies.
pub proof fn law_submission_terminates(
    context: VAContextID,
    surface: VASurfaceID,
    replies: Seq<SubmitReply>,
)
    requires
        replies.len() >= 12,
    ensures
        SubmissionView::initial(context, surface).run(replies).phase == SubmitPhase::Done,
{
    lemma_terminates(SubmissionView::initial(context, surface), replies);
}

/// A submission begins with no call made.
pub proof fn law_submissions_begin_fresh(
    context: VAContextID,
    surface: VASurfaceID,
    submission: Submission,
)
    requires
        call_ensures(Submission::new, (context, surface), submission),
    ensures
        submission@ == SubmissionView::initial(context, surface),
        submission@.context == context && submission@.surface == surface,
        submission@.buffers.len() == 0 && submission@.error is None,
{
}

/// What a submission asks for, takes in and ends with is what its state says.
pub proof fn law_submissions_follow_their_state(
    asked: &Submission,
    action: SubmitAction,
    moved: &mut Submission,
    reply: SubmitReply,
    finished: Submission,
    outcome: Result<(), VaError>,
)
    requires
        call_ensures(Submission::action, (asked,), action),
        call_ensures(Submission::advance, (moved, reply), ()),
        call_ensures(Submission::finish, (finished,), outcome),
    ensures
        action == asked@.action(),
        final(moved)@ == old(moved)@.next(reply),
        outcome is Ok <==> finished@.error is None,
        outcome matches Err(error) ==> finished@.error == Some(error@),
{
}

/// The calls of a submission whose decoding calls all succeed: the buffers of
/// the picture (0), of the matrices (1), of the slice (4) and of its data (5)
/// are created; the picture is begun, rendered, ended and waited for; and the
/// buffers are destroyed, last first. Whether they can be destroyed makes no
/// difference.
pub proof fn law_calls_of_a_successful_submission(
    context: VAContextID,
    surface: VASurfaceID,
    replies: Seq<SubmitReply>,
)
    requires
        replies.len() == 12,
        forall|i: int| 0 <= i < 8 ==> (#[trigger] replies[i]).call.status == 0,
    ensures
        SubmissionView::initial(context, surface).trace(replies) == seq![
            SubmitAction::CreateBuffer { context, buf_type: 0 },
            SubmitAction::CreateBuffer { context, buf_type: 1 },
            SubmitAction::CreateBuffer { context, buf_type: 4 },
            SubmitAction::CreateBuffer { context, buf_type: 5 },
            SubmitAction::BeginPicture { context, surface },
            SubmitAction::RenderPicture { context },
            SubmitAction::EndPicture { context },
            SubmitAction::SyncSurface { surface },
            SubmitAction::DestroyBuffer { id: replies[3].buffer },
            SubmitAction::DestroyBuffer { id: replies[2].buffer },
            SubmitAction::DestroyBuffer { id: replies[1].buffer },
            SubmitAction::DestroyBuffer { id: replies[0].buffer },
        ],
        SubmissionView::initial(context, surface).run(replies).error is None,
        SubmissionView::initial(context, surface).run(replies).action() is Finish,
{
    let v0 = SubmissionView::initial(context, surface);
    let (a, b, c, d) = (
        replies[0].buffer,
        replies[1].buffer,
        replies[2].buffer,
        replies[3].buffer,
    );
    let v4 = v0.next(replies[0]).next(replies[1]).next(replies[2]).next(replies[3]);
    assert(v4.buffers =~= seq![a, b, c, d]);
    let v8 = v4.next(replies[4]).next(replies[5]).next(replies[6]).next(replies[7]);
    assert(v8.phase == SubmitPhase::Destroy && v8.buffers == v4.buffers);
    let v9 = v8.next(replies[8]);
    assert(v9.buffers =~= seq![a, b, c]);
    let v10 = v9.next(replies[9]);
    assert(v10.buffers =~= seq![a, b]);
    let v11 = v10.next(replies[10]);
    assert(v11.buffers =~= seq![a]);
    lemma_trace_of_twelve(v0, replies);
}

/// A run over twelve replies, call by call.
proof fn lemma_trace_of_twelve(v: SubmissionView, replies: Seq<SubmitReply>)
    requires
        replies.len() == 12,
    ensures
        ({
            let v1 = v.next(replies[0]);
            let v2 = v1.next(replies[1]);
            let v3 = v2.next(replies[2]);
            let v4 = v3.next(replies[3]);
            let v5 = v4.next(replies[4]);
            let v6 = v5.next(replies[5]);
            let v7 = v6.next(replies[6]);
            let v8 = v7.next(replies[7]);
            let v9 = v8.next(replies[8]);
            let v10 = v9.next(replies[9]);
            let v11 = v10.next(replies[10]);
            &&& v.trace(replies) == seq![
                v.action(),
                v1.action(),
                v2.action(),
                v3.action(),
                v4.action(),
                v5.action(),
                v6.action(),
                v7.action(),
                v8.action(),
                v9.action(),
                v10.action(),
                v11.action(),
            ]
            &&& v.run(replies) == v11.next(replies[11])
        }),
{
    let r1 = replies.skip(1);
    let r2 = r1.skip(1);
    let r3 = r2.skip(1);
    let r4 = r3.skip(1);
    let r5 = r4.skip(1);
    let r6 = r5.skip(1);
    let r7 = r6.skip(1);
    let r8 = r7.skip(1);
    let r9 = r8.skip(1);
    let r10 = r9.skip(1);
    let r11 = r10.skip(1);
    let r12 = r11.skip(1);
    assert(r1[0] == replies[1] && r2[0] == replies[2] && r3[0] == replies[3] && r4[0] == replies[4]
        && r5[0] == replies[5] && r6[0] == replies[6] && r7[0] == replies[7] && r8[0] == replies[8]
        && r9[0] == replies[9] && r10[0] == replies[10] && r11[0] == replies[11]);
    let v1 = v.next(replies[0]);
    let v2 = v1.next(replies[1]);
    let v3 = v2.next(replies[2]);
    let v4 = v3.next(replies[3]);
    let v5 = v4.next(replies[4]);
    let v6 = v5.next(replies[5]);
    let v7 = v6.next(replies[6]);
    let v8 = v7.next(replies[7]);
    let v9 = v8.next(replies[8]);
    let v10 = v9.next(replies[9]);
    let v11 = v10.next(replies[10]);
    let v12 = v11.next(replies[11]);
    assert(v12.trace(r12) =~= seq![] && v12.run(r12) == v12);
    assert(v11.trace(r11) =~= seq![v11.action()] && v11.run(r11) == v12);
    assert(v10.trace(r10) =~= seq![v10.action(), v11.action()] && v10.run(r10) == v12);
    assert(v9.trace(r9) =~= seq![v9.action(), v10.action(), v11.action()] && v9.run(r9) == v12);
    assert(v8.trace(r8) =~= seq![v8.action(), v9.action(), v10.action(), v11.action()] && v8.run(r8)
        == v12);
    assert(v7.trace(r7) =~= seq![v7.action()] + v8.trace(r8) && v7.run(r7) == v12);
    assert(v6.trace(r6) =~= seq![v6.action()] + v7.trace(r7) && v6.run(r6) == v12);
    assert(v5.trace(r5) =~= seq![v5.action()] + v6.trace(r6) && v5.run(r5) == v12);
    assert(v4.trace(r4) =~= seq![v4.action()] + v5.trace(r5) && v4.run(r4) == v12);
    assert(v3.trace(r3) =~= seq![v3.action()] + v4.trace(r4) && v3.run(r3) == v12);
    assert(v2.trace(r2) =~= seq![v2.action()] + v3.trace(r3) && v2.run(r2) == v12);
    assert(v1.trace(r1) =~= seq![v1.action()] + v2.trace(r2) && v1.run(r1) == v12);
    assert(v.trace(replies) =~= seq![v.action()] + v1.trace(r1) && v.run(replies) == v12);
}

/// What stands before the driver's text where the call `k` of the eight fails:
/// the type of the buffer where one could not be created.
pub open spec fn submit_heading(k: int) -> Seq<char> {
    if k == 0 {
        "vaCreateBuffer(type="@ + "0"@ + "): "@
    } else if k == 1 {
        "vaCreateBuffer(type="@ + "1"@ + "): "@
    } else if k == 2 {
        "vaCreateBuffer(type="@ + "4"@ + "): "@
    } else if k == 3 {
        "vaCreateBuffer(type="@ + "5"@ + "): "@
    } else {
        seq![]
    }
}

/// The first of the eight calls that fails is the one that is reported,
/// whatever comes after it.
pub proof fn law_first_failure_is_reported(
    context: VAContextID,
    surface: VASurfaceID,
    replies: Seq<SubmitReply>,
    k: int,
)
    requires
        0 <= k < 8,
        k < replies.len(),
        forall|i: int| 0 <= i < k ==> (#[trigger] replies[i]).call.status == 0,
        replies[k].call.status != 0,
    ensures
        SubmissionView::initial(context, surface).run(replies).error == Some(
            VaErrorView::Va {
                status: replies[k].call.status,
                message: submit_heading(k) + replies[k].call.message(),
            },
        ),
{
    lemma_single_digits();
    lemma_first_failure(SubmissionView::initial(context, surface), replies, 0, k);
}

/// The number of the next of the eight calls.
spec fn call_number(v: SubmissionView) -> int {
    match v.phase {
        SubmitPhase::Create => v.buffers.len() as int,
        SubmitPhase::Begin => 4,
        SubmitPhase::Render => 5,
        SubmitPhase::End => 6,
        SubmitPhase::Sync => 7,
        _ => 8,
    }
}

proof fn lemma_error_stays(v: SubmissionView, replies: Seq<SubmitReply>)
    requires
        v.error is Some,
        v.phase == SubmitPhase::EndAfterFailure || v.phase == SubmitPhase::Destroy || v.phase
            == SubmitPhase::Done,
    ensures
        v.run(replies).error == v.error,
    decreases replies.len(),
{
    if replies.len() > 0 {
        lemma_error_stays(v.next(replies[0]), replies.skip(1));
    }
}

proof fn lemma_first_failure(v: SubmissionView, replies: Seq<SubmitReply>, done: int, k: int)
    requires
        v.wf(),
        v.error is None,
        call_number(v) == done,
        0 <= done <= k < 8,
        k - done < replies.len(),
        forall|i: int| 0 <= i < k - done ==> (#[trigger] replies[i]).call.status == 0,
        replies[k - done].call.status != 0,
        decimal(0) == "0"@ && decimal(1) == "1"@ && decimal(4) == "4"@ && decimal(5) == "5"@,
    ensures
        v.run(replies).error == Some(
            VaErrorView::Va {
                status: replies[k - done].call.status,
                message: submit_heading(k) + replies[k - done].call.message(),
            },
        ),
    decreases k - done,
{
    let (after, rest) = (v.next(replies[0]), replies.skip(1));
    if done == k {
        lemma_error_stays(after, rest);
        assert(seq![] + replies[0].call.message() =~= replies[0].call.message());
    } else {
        assert(replies[0].call.ok());
        assert(forall|i: int| 0 <= i < rest.len() ==> #[trigger] rest[i] == replies[i + 1]);
        lemma_first_failure(after, rest, done + 1, k);
    }
}

/// A submission tells the buffers that exist, in the order of their creation.
pub proof fn law_submissions_tell_their_buffers(
    submission: &Submission,
    buffers: &[VABufferID],
)
    requires
        call_ensures(Submission::buffers, (submission,), buffers),
    ensures
        buffers@ == submission@.buffers,
{
}

} // verus!
