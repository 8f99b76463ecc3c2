//! The VA-API display: opening it on a render node, and what is asked of it.

use vstd::prelude::*;

use crate::error::VaError;
use crate::error::VaErrorView;
use crate::sys::error_str;
use crate::sys::release_views;
use crate::sys::to_unsigned;
use crate::sys::unsigned_word;
use crate::sys::CallReply;
use crate::sys::Release;
use crate::sys::ReleaseView;
use crate::sys::VADisplay;
use crate::sys::VAStatus;
use crate::sys::VA_STATUS_SUCCESS;
use crate::text::joined;
use crate::text::numeral;
use crate::text::numeral_text;

verus! {

/// Position of the first zero byte; `None` without one.
pub open spec fn first_nul(path: Seq<u8>) -> Option<nat>
    decreases path.len(),
{
    if path.len() == 0 {
        None
    } else if path[0] == 0 {
        Some(0)
    } else {
        match first_nul(path.skip(1)) {
            Some(position) => Some(position + 1),
            None => None,
        }
    }
}

/// The error for a path that no C string can hold.
pub open spec fn nul_error(position: nat) -> VaErrorView {
    VaErrorView::OpenDrm(
        "nul byte found in provided data at position: "@ + numeral(position, 10),
    )
}

fn find_nul(path: &[u8]) -> (position: Option<usize>)
    ensures
        match position {
            Some(found) => first_nul(path@) == Some(found as nat),
            None => first_nul(path@) is None,
        },
{
    let mut i: usize = 0;
    assert(path@.skip(0) =~= path@);
    while i < path.len()
        invariant
            i <= path@.len(),
            first_nul(path@) == match first_nul(path@.skip(i as int)) {
                Some(position) => Some(position + i as nat),
                None => None,
            },
        decreases path@.len() - i,
    {
        assert(path@.skip(i as int)[0] == path@[i as int]);
        if path[i] == 0 {
            return Some(i);
        }
        assert(path@.skip(i as int).skip(1) =~= path@.skip(i + 1));
        i += 1;
    }
    None
}

/// What a [`Display`] holds.
pub struct DisplayView {
    pub fd: i32,
    pub dpy: VADisplay,
    pub api_version: Option<(u32, u32)>,
}

/// An open VA-API display: the file descriptor of its render node, its
/// handle, and the API version that `vaInitialize` reported.
pub struct Display {
    fd: i32,
    dpy: VADisplay,
    api_version: Option<(u32, u32)>,
}

impl View for Display {
    type V = DisplayView;

    closed spec fn view(&self) -> DisplayView {
        DisplayView { fd: self.fd, dpy: self.dpy, api_version: self.api_version }
    }
}

impl DisplayView {
    /// The display was initialised, and both of its handles are valid.
    pub open spec fn is_live(self) -> bool {
        self.fd >= 0 && self.dpy != 0 && self.api_version is Some
    }

    /// The calls that give the display back: terminate it if it was
    /// initialised, then close its render node.
    pub open spec fn releases(self) -> Seq<ReleaseView> {
        (if self.api_version is Some && self.dpy != 0 {
            seq![ReleaseView::Terminate(self.dpy)]
        } else {
            seq![]
        }) + if self.fd >= 0 {
            seq![ReleaseView::CloseNode(self.fd)]
        } else {
            seq![]
        }
    }
}

/// Where the opening of a display stands.
#[derive(Clone, Copy, Debug, PartialEq, Eq, Structural)]
pub enum OpenPhase {
    OpenNode,
    GetDisplay,
    Initialize,
    CloseNode,
    Done,
}

/// The call that the opening of a display needs next.
#[derive(Clone, Copy, Debug, PartialEq, Eq, Structural)]
pub enum OpenAction {
    /// Open the render node for reading and writing, close-on-exec.
    OpenNode,
    /// `vaGetDisplayDRM`.
    GetDisplay { fd: i32 },
    /// `vaInitialize`.
    Initialize { dpy: VADisplay },
    /// Close the file descriptor.
    CloseNode { fd: i32 },
    /// Nothing: the outcome is known.
    Finish,
}

/// What answers an [`OpenAction`].
pub enum OpenReply {
    /// The file descriptor, negative on failure, and the operating system's
    /// description of its last error.
    Node(i32, Seq<char>),
    /// The display handle; 0 for none.
    Handle(VADisplay),
    /// The status of `vaInitialize` and the version it reported.
    Version(CallReply, i32, i32),
    /// The file descriptor is closed.
    Closed,
}

/// The state of an [`Opening`].
pub struct OpeningView {
    pub phase: OpenPhase,
    /// The file descriptor; meaningful from `GetDisplay` on.
    pub fd: i32,
    /// The display handle; meaningful from `Initialize` on.
    pub dpy: VADisplay,
    /// The display or the failure, once known.
    pub outcome: Option<Result<DisplayView, VaErrorView>>,
}

impl OpeningView {
    /// No call has been made.
    pub open spec fn initial() -> Self {
        OpeningView { phase: OpenPhase::OpenNode, fd: 0, dpy: 0, outcome: None }
    }

    /// The outcome is known from the first failure, or the last success, on;
    /// until then there is none.
    pub open spec fn wf(self) -> bool {
        self.outcome is Some == (self.phase == OpenPhase::CloseNode || self.phase
            == OpenPhase::Done)
    }

    /// The call that the state needs.
    pub open spec fn action(self) -> OpenAction {
        match self.phase {
            OpenPhase::OpenNode => OpenAction::OpenNode,
            OpenPhase::GetDisplay => OpenAction::GetDisplay { fd: self.fd },
            OpenPhase::Initialize => OpenAction::Initialize { dpy: self.dpy },
            OpenPhase::CloseNode => OpenAction::CloseNode { fd: self.fd },
            OpenPhase::Done => OpenAction::Finish,
        }
    }

    /// A reply is of the kind that the state waits for.
    pub open spec fn awaits(self, reply: OpenReply) -> bool {
        match self.phase {
            OpenPhase::OpenNode => reply is Node,
            OpenPhase::GetDisplay => reply is Handle,
            OpenPhase::Initialize => reply is Version,
            OpenPhase::CloseNode => reply is Closed,
            OpenPhase::Done => false,
        }
    }

    /// The state in another phase, with a failure.
    pub open spec fn failed(self, phase: OpenPhase, error: VaErrorView) -> Self {
        OpeningView { phase, outcome: Some(Err(error)), ..self }
    }

    /// The state after a reply that it waits for.
    pub open spec fn next(self, reply: OpenReply) -> Self {
        match (self.phase, reply) {
            (OpenPhase::OpenNode, OpenReply::Node(fd, os_error)) => if fd < 0 {
                self.failed(OpenPhase::Done, VaErrorView::OpenDrm(os_error))
            } else {
                OpeningView { phase: OpenPhase::GetDisplay, fd, ..self }
            },
            (OpenPhase::GetDisplay, OpenReply::Handle(dpy)) => if dpy == 0 {
                self.failed(OpenPhase::CloseNode, VaErrorView::GetDisplayNull)
            } else {
                OpeningView { phase: OpenPhase::Initialize, dpy, ..self }
            },
            (OpenPhase::Initialize, OpenReply::Version(call, major, minor)) => if !call.ok() {
                self.failed(
                    OpenPhase::CloseNode,
                    VaErrorView::Init { status: call.status, message: call.message() },
                )
            } else {
                OpeningView {
                    phase: OpenPhase::Done,
                    outcome: Some(
                        Ok(
                            DisplayView {
                                fd: self.fd,
                                dpy: self.dpy,
                                api_version: Some(
                                    (unsigned_word(major) as u32, unsigned_word(minor) as u32),
                                ),
                            },
                        ),
                    ),
                    ..self
                }
            },
            (OpenPhase::CloseNode, OpenReply::Closed) => OpeningView {
                phase: OpenPhase::Done,
                ..self
            },
            _ => self,
        }
    }

    /// The state after a sequence of replies.
    pub open spec fn run(self, replies: Seq<OpenReply>) -> Self
        decreases replies.len(),
    {
        if replies.len() == 0 {
            self
        } else {
            self.next(replies[0]).run(replies.skip(1))
        }
    }

    /// The calls that a sequence of replies answers.
    pub open spec fn trace(self, replies: Seq<OpenReply>) -> Seq<OpenAction>
        decreases replies.len(),
    {
        if replies.len() == 0 {
            seq![]
        } else {
            seq![self.action()] + self.next(replies[0]).trace(replies.skip(1))
        }
    }

    /// Every reply of a sequence is one that the state at its turn waits for.
    pub open spec fn awaits_all(self, replies: Seq<OpenReply>) -> bool
        decreases replies.len(),
    {
        replies.len() > 0 ==> self.awaits(replies[0]) && self.next(replies[0]).awaits_all(
            replies.skip(1),
        )
    }
}

/// The opening of a display, as a sequence of calls and replies: open the
/// node, get a display for it, initialise the display. A failure behind the
/// first step closes the node; nothing is terminated.
pub struct Opening {
    phase: OpenPhase,
    fd: i32,
    dpy: VADisplay,
    outcome: Option<Result<Display, VaError>>,
}

impl View for Opening {
    type V = OpeningView;

    closed spec fn view(&self) -> OpeningView {
        OpeningView {
            phase: self.phase,
            fd: self.fd,
            dpy: self.dpy,
            outcome: match self.outcome {
                Some(Ok(display)) => Some(Ok(display@)),
                Some(Err(error)) => Some(Err(error@)),
                None => None,
            },
        }
    }
}

impl Opening {
    /// The call to make next.
    pub fn action(&self) -> (action: OpenAction)
        ensures
            action == self@.action(),
    {
        match self.phase {
            OpenPhase::OpenNode => OpenAction::OpenNode,
            OpenPhase::GetDisplay => OpenAction::GetDisplay { fd: self.fd },
            OpenPhase::Initialize => OpenAction::Initialize { dpy: self.dpy },
            OpenPhase::CloseNode => OpenAction::CloseNode { fd: self.fd },
            OpenPhase::Done => OpenAction::Finish,
        }
    }

    /// Take in the file descriptor of the node, negative where opening it
    /// failed, and the operating system's description of the failure.
    pub fn node_opened(&mut self, fd: i32, os_error: String)
        requires
            old(self)@.wf(),
            old(self)@.phase == OpenPhase::OpenNode,
        ensures
            final(self)@.wf(),
            final(self)@ == old(self)@.next(OpenReply::Node(fd, os_error@)),
    {
        if fd < 0 {
            self.outcome = Some(Err(VaError::OpenDrm(os_error)));
            self.phase = OpenPhase::Done;
        } else {
            self.fd = fd;
            self.phase = OpenPhase::GetDisplay;
        }
    }

    /// Take in the display handle; 0 for none.
    pub fn display_bound(&mut self, dpy: VADisplay)
        requires
            old(self)@.wf(),
            old(self)@.phase == OpenPhase::GetDisplay,
        ensures
            final(self)@.wf(),
            final(self)@ == old(self)@.next(OpenReply::Handle(dpy)),
    {
        if dpy == 0 {
            self.outcome = Some(Err(VaError::GetDisplayNull));
            self.phase = OpenPhase::CloseNode;
        } else {
            self.dpy = dpy;
            self.phase = OpenPhase::Initialize;
        }
    }

    /// Take in the status of `vaInitialize` and the version it reported.
    pub fn initialized(&mut self, call: CallReply, major: i32, minor: i32)
        requires
            old(self)@.wf(),
            old(self)@.phase == OpenPhase::Initialize,
        ensures
            final(self)@.wf(),
            final(self)@ == old(self)@.next(OpenReply::Version(call, major, minor)),
    {
        let status: VAStatus = call.status;
        if status != VA_STATUS_SUCCESS {
            let message: String = error_str(call.driver_text, status);
            self.outcome = Some(Err(VaError::Init { status, message }));
            self.phase = OpenPhase::CloseNode;
        } else {
            self.outcome = Some(
                Ok(
                    Display {
                        fd: self.fd,
                        dpy: self.dpy,
                        api_version: Some((to_unsigned(major), to_unsigned(minor))),
                    },
                ),
            );
            self.phase = OpenPhase::Done;
        }
    }

    /// Take in that the node is closed.
    pub fn node_closed(&mut self)
        requires
            old(self)@.wf(),
            old(self)@.phase == OpenPhase::CloseNode,
        ensures
            final(self)@.wf(),
            final(self)@ == old(self)@.next(OpenReply::Closed),
    {
        self.phase = OpenPhase::Done;
    }

    /// The outcome of a finished opening.
    pub fn finish(self) -> (outcome: Result<Display, VaError>)
        requires
            self@.wf(),
            self@.phase == OpenPhase::Done,
        ensures
            match outcome {
                Ok(display) => self@.outcome == Some(Ok::<DisplayView, VaErrorView>(display@)),
                Err(error) => self@.outcome == Some(Err::<DisplayView, VaErrorView>(error@)),
            },
    {
        self.outcome.unwrap()
    }
}

impl Display {
    /// Begin to open the render node at `path`, given whether the libva
    /// runtime could be loaded. A path with a zero byte is refused.
    pub fn open_drm(path: &[u8], runtime: Result<(), String>) -> (opening: Result<
        Opening,
        VaError,
    >)
        ensures
            match opening {
                Ok(opening) => runtime is Ok && first_nul(path@) is None && opening@
                    == OpeningView::initial(),
                Err(error) => match (runtime, first_nul(path@)) {
                    (Err(text), _) => error@ == VaErrorView::Sys(text@),
                    (Ok(()), Some(position)) => error@ == nul_error(position),
                    (Ok(()), None) => false,
                },
            },
    {
        match runtime {
            Err(text) => Err(VaError::Sys(text)),
            Ok(()) => match find_nul(path) {
                Some(position) => {
                    let digits: String = numeral_text(position as u64, 10);
                    Err(
                        VaError::OpenDrm(
                            joined(
                                "nul byte found in provided data at position: ",
                                digits.as_str(),
                            ),
                        ),
                    )
                },
                None => Ok(
                    Opening { phase: OpenPhase::OpenNode, fd: 0, dpy: 0, outcome: None },
                ),
            },
        }
    }

    /// The API version that `vaInitialize` reported.
    pub fn api_version(&self) -> (version: (u32, u32))
        ensures
            version == match self@.api_version {
                Some(version) => version,
                None => (0u32, 0u32),
            },
    {
        match self.api_version {
            Some(version) => version,
            None => (0, 0),
        }
    }

    /// The display handle.
    pub fn raw(&self) -> (dpy: VADisplay)
        ensures
            dpy == self@.dpy,
    {
        self.dpy
    }

    /// The file descriptor of the render node.
    pub fn fd(&self) -> (fd: i32)
        ensures
            fd == self@.fd,
    {
        self.fd
    }

    /// The calls that give the display back, in order.
    pub fn releases(&self) -> (releases: Vec<Release>)
        ensures
            release_views(releases@) == self@.releases(),
    {
        let mut releases: Vec<Release> = Vec::new();
        if self.api_version.is_some() && self.dpy != 0 {
            releases.push(Release::Terminate(self.dpy));
        }
        if self.fd >= 0 {
            releases.push(Release::CloseNode(self.fd));
        }
        assert(release_views(releases@) =~= self@.releases());
        releases
    }

    /// The driver's vendor string, given what `vaQueryVendorString` returned
    /// (`None` for the null pointer).
    pub fn vendor_string(&self, answer: Option<String>) -> (vendor: Result<String, VaError>)
        ensures
            match (vendor, answer) {
                (Ok(text), Some(given)) => text@ == given@,
                (Err(error), None) => error@ == (VaErrorView::Va {
                    status: 0,
                    message: "vaQueryVendorString returned null"@,
                }),
                _ => false,
            },
    {
        match answer {
            Some(text) => Ok(text),
            None => Err(
                VaError::Va {
                    status: 0,
                    message: "vaQueryVendorString returned null".to_string(),
                },
            ),
        }
    }
}

/// How often a call occurs in a sequence of calls.
pub open spec fn count_of(actions: Seq<OpenAction>, action: OpenAction) -> nat
    decreases actions.len(),
{
    if actions.len() == 0 {
        0
    } else {
        count_of(actions.skip(1), action) + if actions[0] == action {
            1nat
        } else {
            0nat
        }
    }
}

/// The first step of a run.
proof fn lemma_first_step(v: OpeningView, replies: Seq<OpenReply>)
    requires
        replies.len() > 0,
    ensures
        v.run(replies) == v.next(replies[0]).run(replies.skip(1)),
        v.awaits_all(replies) ==> v.awaits(replies[0]) && v.next(replies[0]).awaits_all(
            replies.skip(1),
        ),
        forall|action: OpenAction| #[trigger]
            count_of(v.trace(replies), action) == count_of(
                v.next(replies[0]).trace(replies.skip(1)),
                action,
            ) + if v.action() == action {
                1nat
            } else {
                0nat
            },
{
    assert(v.trace(replies).skip(1) =~= v.next(replies[0]).trace(replies.skip(1)));
}

/// A finished opening that has nothing left to do, or only to close its node.
proof fn lemma_last_steps(v: OpeningView, replies: Seq<OpenReply>)
    requires
        v.phase == OpenPhase::CloseNode || v.phase == OpenPhase::Done,
        v.awaits_all(replies),
        v.run(replies).phase == OpenPhase::Done,
    ensures
        v.run(replies).outcome == v.outcome,
        forall|action: OpenAction| #[trigger]
            count_of(v.trace(replies), action) == if v.phase == OpenPhase::CloseNode && action
                == v.action() {
                1nat
            } else {
                0nat
            },
{
    if replies.len() > 0 {
        lemma_first_step(v, replies);
        let (after, rest) = (v.next(replies[0]), replies.skip(1));
        if rest.len() > 0 {
            assert(after.awaits_all(rest));
        }
    }
}

/// What a finished opening has done with the node's file descriptor `fd`. On
/// failure it was closed exactly once, unless the node could not be opened at
/// all. On success it stays open, and belongs to a display that was
/// initialised, so that giving the display back terminates it and then closes
/// the descriptor.
pub proof fn law_opening_closes_node_on_failure(replies: Seq<OpenReply>)
    requires
        OpeningView::initial().awaits_all(replies),
        OpeningView::initial().run(replies).phase == OpenPhase::Done,
    ensures
        replies.len() > 0,
        replies[0] matches OpenReply::Node(fd, os_error) && {
            let trace = OpeningView::initial().trace(replies);
            match OpeningView::initial().run(replies).outcome {
                Some(Ok(display)) => {
                    &&& fd >= 0
                    &&& display.fd == fd
                    &&& display.is_live()
                    &&& display.releases() == seq![
                        ReleaseView::Terminate(display.dpy),
                        ReleaseView::CloseNode(fd),
                    ]
                    &&& count_of(trace, OpenAction::CloseNode { fd }) == 0
                },
                Some(Err(_)) => count_of(trace, OpenAction::CloseNode { fd }) == if fd >= 0 {
                    1nat
                } else {
                    0nat
                },
                None => false,
            }
        },
{
    let v = OpeningView::initial();
    assert(replies.len() > 0);
    lemma_first_step(v, replies);
    let (v1, r1) = (v.next(replies[0]), replies.skip(1));
    if v1.phase == OpenPhase::Done {
        lemma_last_steps(v1, r1);
    } else {
        assert(r1.len() > 0);
        lemma_first_step(v1, r1);
        let (v2, r2) = (v1.next(r1[0]), r1.skip(1));
        if v2.phase == OpenPhase::CloseNode {
            lemma_last_steps(v2, r2);
        } else {
            assert(r2.len() > 0);
            lemma_first_step(v2, r2);
            let v3 = v2.next(r2[0]);
            lemma_last_steps(v3, r2.skip(1));
            if let Some(Ok(display)) = v3.outcome {
                assert(display.releases() =~= seq![
                    ReleaseView::Terminate(display.dpy),
                    ReleaseView::CloseNode(display.fd),
                ]);
            }
        }
    }
}

/// However an opening went, where it fails to initialise the display the
/// status that it reports is not that of success.
pub proof fn law_initialisation_failure_has_a_status(replies: Seq<OpenReply>)
    ensures
        OpeningView::initial().run(replies).outcome matches Some(
            Err(VaErrorView::Init { status, .. }),
        ) ==> status != VA_STATUS_SUCCESS,
{
    lemma_initialisation_failure(OpeningView::initial(), replies);
}

proof fn lemma_initialisation_failure(v: OpeningView, replies: Seq<OpenReply>)
    requires
        v.outcome matches Some(Err(VaErrorView::Init { status, .. })) ==> status
            != VA_STATUS_SUCCESS,
    ensures
        v.run(replies).outcome matches Some(Err(VaErrorView::Init { status, .. })) ==> status
            != VA_STATUS_SUCCESS,
    decreases replies.len(),
{
    if replies.len() > 0 {
        lemma_initialisation_failure(v.next(replies[0]), replies.skip(1));
    }
}

proof fn lemma_first_nul(path: Seq<u8>, position: int)
    requires
        0 <= position <= path.len(),
        forall|i: int| 0 <= i < position ==> #[trigger] path[i] != 0,
        position == path.len() || path[position] == 0,
    ensures
        first_nul(path) == if position == path.len() {
            None
        } else {
            Some(position as nat)
        },
    decreases path.len(),
{
    if position > 0 {
        let rest = path.skip(1);
        assert(path[0] != 0);
        assert forall|i: int| 0 <= i < position - 1 implies #[trigger] rest[i] != 0 by {
            assert(rest[i] == path[i + 1]);
        }
        if position < path.len() {
            assert(rest[position - 1] == path[position]);
        }
        lemma_first_nul(rest, position - 1);
    }
}

/// A path is opened exactly where the runtime was loaded and no byte of the
/// path is zero. Where `position` is the place of the first zero byte, or the
/// length of the path without one, the error says so; the runtime's error goes
/// before it.
pub proof fn law_paths_are_opened(
    path: &[u8],
    runtime: Result<(), String>,
    opening: Result<Opening, VaError>,
    position: int,
)
    requires
        call_ensures(Display::open_drm, (path, runtime), opening),
        0 <= position <= path@.len(),
        forall|i: int| 0 <= i < position ==> #[trigger] path@[i] != 0,
        position == path@.len() || path@[position] == 0,
    ensures
        opening is Ok <==> runtime is Ok && position == path@.len(),
        opening matches Ok(opening) ==> opening@.action() is OpenNode && opening@.outcome is None,
        runtime matches Err(text) ==> (opening matches Err(error) && error@ == VaErrorView::Sys(
            text@,
        )),
        runtime is Ok && position < path@.len() ==> (opening matches Err(error) && error@
            == VaErrorView::OpenDrm(
            "nul byte found in provided data at position: "@ + numeral(position as nat, 10),
        )),
{
    lemma_first_nul(path@, position);
}

/// A node that was opened is asked for its display. One that could not be
/// opened is reported in the words of the operating system, and there is
/// nothing to close.
pub proof fn law_opened_nodes_are_bound(opening: &mut Opening, fd: i32, os_error: String)
    requires
        old(opening)@.wf(),
        old(opening)@.action() is OpenNode,
        call_ensures(Opening::node_opened, (opening, fd, os_error), ()),
    ensures
        fd >= 0 ==> final(opening)@.fd == fd && final(opening)@.outcome is None
            && final(opening)@.action() == (OpenAction::GetDisplay { fd }),
        fd < 0 ==> final(opening)@.action() is Finish && final(opening)@.outcome == Some(
            Err::<DisplayView, VaErrorView>(VaErrorView::OpenDrm(os_error@)),
        ),
{
}

/// A display handle is initialised, unless it is null: then the node is closed.
pub proof fn law_bound_displays_are_initialised(opening: &mut Opening, dpy: VADisplay)
    requires
        old(opening)@.wf(),
        old(opening)@.action() is GetDisplay,
        call_ensures(Opening::display_bound, (opening, dpy), ()),
    ensures
        final(opening)@.fd == old(opening)@.fd,
        dpy != 0 ==> final(opening)@.dpy == dpy && final(opening)@.outcome is None
            && final(opening)@.action() == (OpenAction::Initialize { dpy }),
        dpy == 0 ==> final(opening)@.action() == (OpenAction::CloseNode { fd: old(opening)@.fd })
            && final(opening)@.outcome == Some(
            Err::<DisplayView, VaErrorView>(VaErrorView::GetDisplayNull),
        ),
{
}

/// A display that was initialised keeps the node, the handle and the version,
/// whose words are read as unsigned. Where that failed the failure is reported
/// and the node is closed.
pub proof fn law_initialised_displays_are_kept(
    opening: &mut Opening,
    call: CallReply,
    major: i32,
    minor: i32,
)
    requires
        old(opening)@.wf(),
        old(opening)@.action() is Initialize,
        call_ensures(Opening::initialized, (opening, call, major, minor), ()),
    ensures
        call.status == 0 ==> final(opening)@.action() is Finish && (
        final(opening)@.outcome matches Some(Ok(display)) && display.fd == old(opening)@.fd
            && display.dpy == old(opening)@.dpy && (display.api_version matches Some(
            (first, second),
        ) && (first - major) % 0x1_0000_0000 == 0 && (second - minor) % 0x1_0000_0000 == 0)),
        call.status != 0 ==> final(opening)@.action() == (OpenAction::CloseNode {
            fd: old(opening)@.fd,
        }) && final(opening)@.outcome == Some(
            Err::<DisplayView, VaErrorView>(
                VaErrorView::Init { status: call.status, message: call.message() },
            ),
        ),
{
}

/// Once the node is closed the opening is done, with the failure that it had;
/// what it asks for and ends with is what its state says.
pub proof fn law_openings_end_with_their_outcome(
    opening: &mut Opening,
    asked: &Opening,
    action: OpenAction,
    finished: Opening,
    outcome: Result<Display, VaError>,
)
    requires
        old(opening)@.action() is CloseNode,
        call_ensures(Opening::node_closed, (opening,), ()),
        call_ensures(Opening::action, (asked,), action),
        call_ensures(Opening::finish, (finished,), outcome),
    ensures
        final(opening)@.action() is Finish,
        final(opening)@.outcome == old(opening)@.outcome,
        action == asked@.action(),
        outcome matches Ok(display) ==> finished@.outcome == Some(
            Ok::<DisplayView, VaErrorView>(display@),
        ),
        outcome matches Err(error) ==> finished@.outcome == Some(
            Err::<DisplayView, VaErrorView>(error@),
        ),
{
}

/// What a display tells of itself. Its vendor is what the driver answers, and
/// no answer is an error.
pub proof fn law_displays_tell_their_parts(
    display: &Display,
    version: (u32, u32),
    dpy: VADisplay,
    fd: i32,
    answer: Option<String>,
    vendor: Result<String, VaError>,
)
    requires
        call_ensures(Display::api_version, (display,), version),
        call_ensures(Display::raw, (display,), dpy),
        call_ensures(Display::fd, (display,), fd),
        call_ensures(Display::vendor_string, (display, answer), vendor),
    ensures
        dpy == display@.dpy && fd == display@.fd,
        display@.api_version matches Some(known) ==> version == known,
        display@.api_version is None ==> version == (0u32, 0u32),
        answer matches Some(text) ==> (vendor matches Ok(name) && name@ == text@),
        answer is None ==> (vendor matches Err(error) && error@ == (VaErrorView::Va {
            status: 0,
            message: "vaQueryVendorString returned null"@,
        })),
{
}

/// A display is terminated where it was initialised, and its node is closed
/// where it is open, last.
pub proof fn law_displays_are_given_back(display: &Display, releases: Vec<Release>)
    requires
        call_ensures(Display::releases, (display,), releases),
    ensures
        ({
            let ended = display@.api_version is Some && display@.dpy != 0;
            let closed = display@.fd >= 0;
            &&& releases@.len() == (if ended {
                1int
            } else {
                0
            }) + (if closed {
                1int
            } else {
                0
            })
            &&& ended ==> releases@[0]@ == ReleaseView::Terminate(display@.dpy)
            &&& closed ==> releases@[releases@.len() - 1]@ == ReleaseView::CloseNode(display@.fd)
        }),
{
    assert(release_views(releases@).len() == releases@.len());
    if releases@.len() > 0 {
        assert(release_views(releases@)[0] == releases@[0]@);
        assert(release_views(releases@)[releases@.len() - 1] == releases@[releases@.len() - 1]@);
    }
}

} // verus!
