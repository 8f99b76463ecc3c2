//! Decode contexts and the surfaces they render into.

use vstd::prelude::*;

use crate::error::VaError;
use crate::error::VaErrorView;
use crate::sys::release_views;
use crate::sys::CallReply;
use crate::sys::Release;
use crate::sys::ReleaseView;
use crate::sys::VAConfigID;
use crate::sys::VAContextID;
use crate::sys::VADisplay;
use crate::sys::VASurfaceID;
use crate::sys::VA_RT_FORMAT_YUV420;

verus! {

/// What a [`Context`] holds.
#[verifier::ext_equal]
pub struct ContextView {
    pub dpy: VADisplay,
    pub surfaces: Seq<VASurfaceID>,
    pub id: VAContextID,
    pub width: u32,
    pub height: u32,
}

/// A context handle with the surfaces that it renders into.
pub struct Context {
    dpy: VADisplay,
    surfaces: Vec<VASurfaceID>,
    context_id: VAContextID,
    width: u32,
    height: u32,
}

impl View for Context {
    type V = ContextView;

    closed spec fn view(&self) -> ContextView {
        ContextView {
            dpy: self.dpy,
            surfaces: self.surfaces@,
            id: self.context_id,
            width: self.width,
            height: self.height,
        }
    }
}

/// What a context is to be made of.
#[derive(Clone, Copy, Debug, PartialEq, Eq, Structural)]
pub struct ContextRequest {
    pub dpy: VADisplay,
    pub config: VAConfigID,
    pub width: u32,
    pub height: u32,
    pub num_surfaces: u32,
}

/// Where the setup of a context stands.
#[derive(Clone, Copy, Debug, PartialEq, Eq, Structural)]
pub enum ContextPhase {
    CreateSurfaces,
    CreateContext,
    DestroySurfaces,
    Done,
}

/// The call that the setup of a context needs next.
#[derive(Clone, Copy, Debug, PartialEq, Eq, Structural)]
pub enum ContextAction {
    /// `vaCreateSurfaces`.
    CreateSurfaces { format: u32, width: u32, height: u32, num_surfaces: u32 },
    /// `vaCreateContext` with the new surfaces as render targets.
    CreateContext { config: VAConfigID, width: u32, height: u32 },
    /// `vaDestroySurfaces` with the new surfaces.
    DestroySurfaces,
    /// Nothing: the outcome is known.
    Finish,
}

/// What answers a [`ContextAction`].
pub enum ContextReply {
    /// The status of `vaCreateSurfaces` and the surfaces.
    Surfaces(CallReply, Seq<VASurfaceID>),
    /// The status of `vaCreateContext` and the handle.
    Handle(CallReply, VAContextID),
    /// The surfaces are destroyed.
    Destroyed,
}

/// The state of a [`ContextSetup`].
#[verifier::ext_equal]
pub struct ContextSetupView {
    pub request: ContextRequest,
    pub phase: ContextPhase,
    /// The surfaces that exist.
    pub surfaces: Seq<VASurfaceID>,
    /// The context or the failure, once known.
    pub outcome: Option<Result<ContextView, VaErrorView>>,
}

impl ContextSetupView {
    /// No call has been made.
    pub open spec fn initial(request: ContextRequest) -> Self {
        ContextSetupView {
            request,
            phase: ContextPhase::CreateSurfaces,
            surfaces: seq![],
            outcome: None,
        }
    }

    /// The outcome is known from the first failure, or the last success, on;
    /// until then there is none.
    pub open spec fn wf(self) -> bool {
        &&& self.outcome is Some == (self.phase == ContextPhase::DestroySurfaces || self.phase
            == ContextPhase::Done)
        &&& self.phase == ContextPhase::CreateContext ==> self.surfaces.len()
            == self.request.num_surfaces
        &&& self.outcome matches Some(Ok(context)) ==> context.surfaces.len()
            == self.request.num_surfaces && context.width == self.request.width && context.height
            == self.request.height && context.dpy == self.request.dpy
    }

    /// The call that the state needs.
    pub open spec fn action(self) -> ContextAction {
        match self.phase {
            ContextPhase::CreateSurfaces => ContextAction::CreateSurfaces {
                format: VA_RT_FORMAT_YUV420,
                width: self.request.width,
                height: self.request.height,
                num_surfaces: self.request.num_surfaces,
            },
            ContextPhase::CreateContext => ContextAction::CreateContext {
                config: self.request.config,
                width: self.request.width,
                height: self.request.height,
            },
            ContextPhase::DestroySurfaces => ContextAction::DestroySurfaces,
            ContextPhase::Done => ContextAction::Finish,
        }
    }

    /// A reply is of the kind that the state waits for.
    pub open spec fn awaits(self, reply: ContextReply) -> bool {
        match self.phase {
            ContextPhase::CreateSurfaces => reply matches ContextReply::Surfaces(_, surfaces)
                && surfaces.len() == self.request.num_surfaces,
            ContextPhase::CreateContext => reply is Handle,
            ContextPhase::DestroySurfaces => reply is Destroyed,
            ContextPhase::Done => false,
        }
    }

    /// The state in another phase, with a failure.
    pub open spec fn failed(self, phase: ContextPhase, error: VaErrorView) -> Self {
        ContextSetupView { phase, outcome: Some(Err(error)), ..self }
    }

    /// The state after a reply that it waits for.
    pub open spec fn next(self, reply: ContextReply) -> Self {
        match (self.phase, reply) {
            (ContextPhase::CreateSurfaces, ContextReply::Surfaces(call, surfaces)) => if call.ok() {
                ContextSetupView { phase: ContextPhase::CreateContext, surfaces, ..self }
            } else {
                self.failed(ContextPhase::Done, call.failure())
            },
            (ContextPhase::CreateContext, ContextReply::Handle(call, id)) => if call.ok() {
                ContextSetupView {
                    phase: ContextPhase::Done,
                    surfaces: seq![],
                    outcome: Some(
                        Ok(
                            ContextView {
                                dpy: self.request.dpy,
                                surfaces: self.surfaces,
                                id,
                                width: self.request.width,
                                height: self.request.height,
                            },
                        ),
                    ),
                    ..self
                }
            } else {
                self.failed(ContextPhase::DestroySurfaces, call.failure())
            },
            (ContextPhase::DestroySurfaces, ContextReply::Destroyed) => ContextSetupView {
                phase: ContextPhase::Done,
                surfaces: seq![],
                ..self
            },
            _ => self,
        }
    }
}

/// The setup of a context, as a sequence of calls and replies: create 4:2:0
/// surfaces of the requested size, then the context. Where the context cannot be created the
/// surfaces are destroyed.
pub struct ContextSetup {
    request: ContextRequest,
    phase: ContextPhase,
    surfaces: Vec<VASurfaceID>,
    outcome: Option<Result<Context, VaError>>,
}

impl View for ContextSetup {
    type V = ContextSetupView;

    closed spec fn view(&self) -> ContextSetupView {
        ContextSetupView {
            request: self.request,
            phase: self.phase,
            surfaces: self.surfaces@,
            outcome: match self.outcome {
                Some(Ok(context)) => Some(Ok(context@)),
                Some(Err(error)) => Some(Err(error@)),
                None => None,
            },
        }
    }
}

impl ContextSetup {
    /// The call to make next.
    pub fn action(&self) -> (action: ContextAction)
        ensures
            action == self@.action(),
    {
        match self.phase {
            ContextPhase::CreateSurfaces => ContextAction::CreateSurfaces {
                format: VA_RT_FORMAT_YUV420,
                width: self.request.width,
                height: self.request.height,
                num_surfaces: self.request.num_surfaces,
            },
            ContextPhase::CreateContext => ContextAction::CreateContext {
                config: self.request.config,
                width: self.request.width,
                height: self.request.height,
            },
            ContextPhase::DestroySurfaces => ContextAction::DestroySurfaces,
            ContextPhase::Done => ContextAction::Finish,
        }
    }

    /// What the context is to be made of.
    pub fn request(&self) -> (request: ContextRequest)
        ensures
            request == self@.request,
    {
        self.request
    }

    /// The surfaces that exist.
    pub fn surfaces(&self) -> (surfaces: &[VASurfaceID])
        ensures
            surfaces@ == self@.surfaces,
    {
        self.surfaces.as_slice()
    }

    /// Take in the reply to `vaCreateSurfaces`.
    pub fn surfaces_created(&mut self, call: CallReply, surfaces: Vec<VASurfaceID>)
        requires
            old(self)@.wf(),
            old(self)@.awaits(ContextReply::Surfaces(call, surfaces@)),
        ensures
            final(self)@.wf(),
            final(self)@ == old(self)@.next(ContextReply::Surfaces(call, surfaces@)),
    {
        match call.check() {
            Ok(()) => {
                self.surfaces = surfaces;
                self.phase = ContextPhase::CreateContext;
            },
            Err(error) => {
                self.outcome = Some(Err(error));
                self.phase = ContextPhase::Done;
            },
        }
    }

    /// Take in the reply to `vaCreateContext`.
    pub fn context_created(&mut self, call: CallReply, id: VAContextID)
        requires
            old(self)@.wf(),
            old(self)@.phase == ContextPhase::CreateContext,
        ensures
            final(self)@.wf(),
            final(self)@ == old(self)@.next(ContextReply::Handle(call, id)),
    {
        match call.check() {
            Ok(()) => {
                let mut surfaces: Vec<VASurfaceID> = Vec::new();
                surfaces.append(&mut self.surfaces);
                assert(surfaces@ =~= old(self)@.surfaces);
                self.outcome = Some(
                    Ok(
                        Context {
                            dpy: self.request.dpy,
                            surfaces,
                            context_id: id,
                            width: self.request.width,
                            height: self.request.height,
                        },
                    ),
                );
                self.phase = ContextPhase::Done;
                assert(self@ =~= old(self)@.next(ContextReply::Handle(call, id)));
            },
            Err(error) => {
                self.outcome = Some(Err(error));
                self.phase = ContextPhase::DestroySurfaces;
            },
        }
    }

    /// Take in that the surfaces are destroyed.
    pub fn surfaces_destroyed(&mut self)
        requires
            old(self)@.wf(),
            old(self)@.phase == ContextPhase::DestroySurfaces,
        ensures
            final(self)@.wf(),
            final(self)@ == old(self)@.next(ContextReply::Destroyed),
    {
        self.surfaces = Vec::new();
        self.phase = ContextPhase::Done;
        assert(self@ =~= old(self)@.next(ContextReply::Destroyed));
    }

    /// The outcome of a finished setup.
    pub fn finish(self) -> (outcome: Result<Context, VaError>)
        requires
            self@.wf(),
            self@.phase == ContextPhase::Done,
        ensures
            match outcome {
                Ok(context) => self@.outcome == Some(Ok::<ContextView, VaErrorView>(context@)),
                Err(error) => self@.outcome == Some(Err::<ContextView, VaErrorView>(error@)),
            },
    {
        self.outcome.unwrap()
    }
}

impl Context {
    /// Begin to set up a context. At least one surface is needed.
    pub fn new(request: ContextRequest) -> (setup: Result<ContextSetup, VaError>)
        ensures
            match setup {
                Ok(setup) => request.num_surfaces > 0 && setup@ == ContextSetupView::initial(
                    request,
                ) && setup@.wf(),
                Err(error) => request.num_surfaces == 0 && error@ == (VaErrorView::Va {
                    status: 0,
                    message: "Context::new: num_surfaces must be >= 1"@,
                }),
            },
    {
        if request.num_surfaces == 0 {
            return Err(
                VaError::Va {
                    status: 0,
                    message: "Context::new: num_surfaces must be >= 1".to_string(),
                },
            );
        }
        let setup = ContextSetup {
            request,
            phase: ContextPhase::CreateSurfaces,
            surfaces: Vec::new(),
            outcome: None,
        };
        assert(setup@ =~= ContextSetupView::initial(request));
        Ok(setup)
    }

    /// The context handle.
    pub fn id(&self) -> (id: VAContextID)
        ensures
            id == self@.id,
    {
        self.context_id
    }

    /// The surfaces, in allocation order.
    pub fn surfaces(&self) -> (surfaces: &[VASurfaceID])
        ensures
            surfaces@ == self@.surfaces,
    {
        self.surfaces.as_slice()
    }

    /// Width and height of the surfaces.
    pub fn dimensions(&self) -> (dimensions: (u32, u32))
        ensures
            dimensions == (self@.width, self@.height),
    {
        (self.width, self.height)
    }

    /// The calls that give the context back, in order.
    pub fn releases(&self) -> (releases: Vec<Release>)
        ensures
            release_views(releases@) == seq![
                ReleaseView::DestroyContext(self@.id),
                ReleaseView::DestroySurfaces(self@.surfaces),
            ],
    {
        let mut releases: Vec<Release> = Vec::new();
        releases.push(Release::DestroyContext(self.context_id));
        let mut surfaces: Vec<VASurfaceID> = Vec::new();
        surfaces.extend_from_slice(self.surfaces.as_slice());
        assert(surfaces@ =~= self@.surfaces);
        releases.push(Release::DestroySurfaces(surfaces));
        assert(release_views(releases@) =~= seq![
            ReleaseView::DestroyContext(self@.id),
            ReleaseView::DestroySurfaces(self@.surfaces),
        ]);
        releases
    }
}

/// No surface is lost. Surfaces that were created are destroyed where the
/// context cannot be created, and belong to the context where it can.
pub proof fn law_setup_keeps_or_destroys_surfaces(
    request: ContextRequest,
    created: CallReply,
    surfaces: Seq<VASurfaceID>,
    bound: CallReply,
    id: VAContextID,
)
    requires
        surfaces.len() == request.num_surfaces,
    ensures
        ({
            let s1 = ContextSetupView::initial(request).next(
                ContextReply::Surfaces(created, surfaces),
            );
            let s2 = s1.next(ContextReply::Handle(bound, id));
            &&& !created.ok() ==> s1.phase == ContextPhase::Done && s1.outcome == Some(
                Err::<ContextView, VaErrorView>(created.failure()),
            )
            &&& created.ok() && bound.ok() ==> s2.phase == ContextPhase::Done && s2.outcome
                == Some(
                Ok::<ContextView, VaErrorView>(
                    ContextView {
                        dpy: request.dpy,
                        surfaces,
                        id,
                        width: request.width,
                        height: request.height,
                    },
                ),
            )
            &&& created.ok() && !bound.ok() ==> s2.action() == ContextAction::DestroySurfaces
                && s2.surfaces == surfaces && s2.next(ContextReply::Destroyed).phase
                == ContextPhase::Done && s2.next(ContextReply::Destroyed).outcome == Some(
                Err::<ContextView, VaErrorView>(bound.failure()),
            )
        }),
{
}

/// The setup of a context begins where at least one surface is asked for, with
/// 4:2:0 surfaces (1) of the size and number asked for.
pub proof fn law_setups_begin_with_surfaces(
    request: ContextRequest,
    setup: Result<ContextSetup, VaError>,
)
    requires
        call_ensures(Context::new, (request,), setup),
    ensures
        setup is Ok <==> request.num_surfaces >= 1,
        setup matches Ok(setup) ==> setup@.request == request && setup@.surfaces.len() == 0
            && setup@.action() == (ContextAction::CreateSurfaces {
            format: 1,
            width: request.width,
            height: request.height,
            num_surfaces: request.num_surfaces,
        }),
        setup matches Err(error) ==> error@ == (VaErrorView::Va {
            status: 0,
            message: "Context::new: num_surfaces must be >= 1"@,
        }),
{
}

/// The surfaces that were created are bound to a context of the same
/// configuration and size; where they could not be created that is reported,
/// and there is nothing more to do.
pub proof fn law_surfaces_are_bound(
    setup: &mut ContextSetup,
    call: CallReply,
    surfaces: Vec<VASurfaceID>,
)
    requires
        old(setup)@.wf(),
        old(setup)@.action() is CreateSurfaces,
        call_ensures(ContextSetup::surfaces_created, (setup, call, surfaces), ()),
    ensures
        final(setup)@.request == old(setup)@.request,
        call.status == 0 ==> final(setup)@.surfaces == surfaces@ && final(setup)@.outcome is None
            && final(setup)@.action() == (ContextAction::CreateContext {
            config: old(setup)@.request.config,
            width: old(setup)@.request.width,
            height: old(setup)@.request.height,
        }),
        call.status != 0 ==> final(setup)@.action() is Finish && final(setup)@.outcome == Some(
            Err::<ContextView, VaErrorView>(
                VaErrorView::Va { status: call.status, message: call.message() },
            ),
        ),
{
}

/// A context that was created owns the surfaces, and has the display and the
/// size that were asked for. Where it could not be created the surfaces are
/// destroyed and the failure is reported.
pub proof fn law_contexts_own_their_surfaces(
    setup: &mut ContextSetup,
    call: CallReply,
    id: VAContextID,
)
    requires
        old(setup)@.wf(),
        old(setup)@.action() is CreateContext,
        call_ensures(ContextSetup::context_created, (setup, call, id), ()),
    ensures
        call.status == 0 ==> final(setup)@.action() is Finish && (
        final(setup)@.outcome matches Some(Ok(context)) && context.id == id && context.surfaces
            == old(setup)@.surfaces && context.dpy == old(setup)@.request.dpy && context.width
            == old(setup)@.request.width && context.height == old(setup)@.request.height),
        call.status != 0 ==> final(setup)@.action() is DestroySurfaces && final(setup)@.surfaces
            == old(setup)@.surfaces && final(setup)@.outcome == Some(
            Err::<ContextView, VaErrorView>(
                VaErrorView::Va { status: call.status, message: call.message() },
            ),
        ),
{
}

/// Once the surfaces are destroyed the setup is done, with the failure that it
/// had; what it ends with is what its state says.
pub proof fn law_setups_end_with_their_outcome(
    setup: &mut ContextSetup,
    asked: &ContextSetup,
    action: ContextAction,
    finished: ContextSetup,
    outcome: Result<Context, VaError>,
)
    requires
        old(setup)@.action() is DestroySurfaces,
        call_ensures(ContextSetup::surfaces_destroyed, (setup,), ()),
        call_ensures(ContextSetup::action, (asked,), action),
        call_ensures(ContextSetup::finish, (finished,), outcome),
    ensures
        final(setup)@.action() is Finish,
        final(setup)@.outcome == old(setup)@.outcome,
        final(setup)@.surfaces.len() == 0,
        action == asked@.action(),
        outcome matches Ok(context) ==> finished@.outcome == Some(
            Ok::<ContextView, VaErrorView>(context@),
        ),
        outcome matches Err(error) ==> finished@.outcome == Some(
            Err::<ContextView, VaErrorView>(error@),
        ),
{
}

/// A context is given back before its surfaces, all of them.
pub proof fn law_contexts_are_given_back(
    context: &Context,
    id: VAContextID,
    surfaces: &[VASurfaceID],
    dimensions: (u32, u32),
    releases: Vec<Release>,
)
    requires
        call_ensures(Context::id, (context,), id),
        call_ensures(Context::surfaces, (context,), surfaces),
        call_ensures(Context::dimensions, (context,), dimensions),
        call_ensures(Context::releases, (context,), releases),
    ensures
        id == context@.id && surfaces@ == context@.surfaces,
        dimensions.0 == context@.width && dimensions.1 == context@.height,
        releases@.len() == 2,
        releases@[0]@ == ReleaseView::DestroyContext(id),
        releases@[1]@ == ReleaseView::DestroySurfaces(surfaces@),
{
    assert(release_views(releases@).len() == releases@.len());
    assert(release_views(releases@)[0] == releases@[0]@);
    assert(release_views(releases@)[1] == releases@[1]@);
}

/// A setup tells what it is to make, and the surfaces that exist.
pub proof fn law_setups_tell_their_parts(
    setup: &ContextSetup,
    request: ContextRequest,
    surfaces: &[VASurfaceID],
)
    requires
        call_ensures(ContextSetup::request, (setup,), request),
        call_ensures(ContextSetup::surfaces, (setup,), surfaces),
    ensures
        request == setup@.request,
        surfaces@ == setup@.surfaces,
{
}

} // verus!
