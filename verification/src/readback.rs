//! Reading a decoded surface back: fetch it into an NV12 image, map the
//! buffer behind the image, copy the planes out, and release everything.

use vstd::prelude::*;

use crate::error::VaError;
use crate::error::VaErrorView;
use crate::planes::copy_nv12_image_to_i420;
use crate::planes::i420_of;
use crate::planes::lemma_plane_sample;
use crate::planes::nv12_fits;
use crate::planes::DecodedFrame;
use crate::planes::FrameView;
use crate::sys::CallReply;
use crate::sys::VA_FOURCC_NV12;
use crate::sys::VABufferID;
use crate::sys::VAImage;
use crate::sys::VAImageFormat;
use crate::sys::VAImageID;
use crate::sys::VASurfaceID;

verus! {

/// Where a read-back stands.
#[derive(Clone, Copy, Debug, PartialEq, Eq, Structural)]
pub enum ReadPhase {
    Create,
    Get,
    MapBuffer,
    /// The buffer is mapped; the planes have to be copied.
    Copy,
    Unmap,
    Destroy,
    Done,
}

/// What a read-back needs next.
#[derive(Clone, Copy, Debug, PartialEq, Eq, Structural)]
pub enum ReadAction {
    /// `vaCreateImage` with [`nv12_format`].
    CreateImage { width: u32, height: u32 },
    /// `vaGetImage` of the upper left `width x height` into the image.
    GetImage { surface: VASurfaceID, width: u32, height: u32, image: VAImageID },
    /// `vaMapBuffer`.
    MapBuffer { buffer: VABufferID },
    /// The mapped bytes.
    Copy,
    /// `vaUnmapBuffer`.
    UnmapBuffer { buffer: VABufferID },
    /// `vaDestroyImage`.
    DestroyImage { image: VAImageID },
    /// Nothing: the outcome is known.
    Finish,
}

/// What answers a [`ReadAction`].
pub enum ReadReply {
    /// The status of a call.
    Call(CallReply),
    /// The status of `vaCreateImage`, with the image it filled in.
    Image(CallReply, VAImage),
    /// The mapped bytes.
    Bytes(Seq<u8>),
}

/// The state of a [`ReadBack`].
pub struct ReadBackView {
    /// The surface that is read.
    pub surface: VASurfaceID,
    /// The dimensions that are read.
    pub width: u32,
    pub height: u32,
    pub phase: ReadPhase,
    /// The image; meaningful from `Get` on.
    pub image: VAImage,
    /// The frame or the first failure, once known.
    pub outcome: Option<Result<FrameView, VaErrorView>>,
}

impl ReadBackView {
    /// No call has been made.
    pub open spec fn is_initial(self) -> bool {
        self.phase == ReadPhase::Create && self.outcome is None
    }

    /// The outcome is known from `Unmap` on, or from the first failure on;
    /// the planes of a frame have the sizes that its dimensions call for.
    pub open spec fn wf(self) -> bool {
        &&& self.outcome is Some == (self.phase == ReadPhase::Unmap || self.phase
            == ReadPhase::Destroy || self.phase == ReadPhase::Done)
        &&& self.outcome matches Some(Ok(frame)) ==> frame.wf()
    }

    /// The call that the state needs.
    pub open spec fn action(self) -> ReadAction {
        match self.phase {
            ReadPhase::Create => ReadAction::CreateImage {
                width: self.width,
                height: self.height,
            },
            ReadPhase::Get => ReadAction::GetImage {
                surface: self.surface,
                width: self.width,
                height: self.height,
                image: self.image.image_id,
            },
            ReadPhase::MapBuffer => ReadAction::MapBuffer { buffer: self.image.buf },
            ReadPhase::Copy => ReadAction::Copy,
            ReadPhase::Unmap => ReadAction::UnmapBuffer { buffer: self.image.buf },
            ReadPhase::Destroy => ReadAction::DestroyImage { image: self.image.image_id },
            ReadPhase::Done => ReadAction::Finish,
        }
    }

    /// A reply is of the kind that the state waits for.
    pub open spec fn awaits(self, reply: ReadReply) -> bool {
        match self.phase {
            ReadPhase::Create => reply is Image,
            ReadPhase::Copy => reply matches ReadReply::Bytes(data) && nv12_fits(
                self.image,
                data.len(),
            ),
            ReadPhase::Done => false,
            _ => reply is Call,
        }
    }

    /// The state in another phase.
    pub open spec fn at(self, phase: ReadPhase) -> Self {
        ReadBackView { phase, ..self }
    }

    /// The state in another phase, with a failure.
    pub open spec fn failed(self, phase: ReadPhase, error: VaErrorView) -> Self {
        ReadBackView { phase, outcome: Some(Err(error)), ..self }
    }

    /// The state after a reply that it waits for.
    pub open spec fn next(self, reply: ReadReply) -> Self {
        match (self.phase, reply) {
            (ReadPhase::Create, ReadReply::Image(call, image)) => if call.ok() {
                ReadBackView { phase: ReadPhase::Get, image, ..self }
            } else {
                self.failed(ReadPhase::Done, call.failure_as("vaCreateImage(NV12): "@))
            },
            (ReadPhase::Get, ReadReply::Call(call)) => if call.ok() {
                self.at(ReadPhase::MapBuffer)
            } else {
                self.failed(ReadPhase::Destroy, call.failure_as("vaGetImage(NV12): "@))
            },
            (ReadPhase::MapBuffer, ReadReply::Call(call)) => if call.ok() {
                self.at(ReadPhase::Copy)
            } else {
                self.failed(ReadPhase::Destroy, call.failure_as("vaMapBuffer(image): "@))
            },
            (ReadPhase::Copy, ReadReply::Bytes(data)) => ReadBackView {
                phase: ReadPhase::Unmap,
                outcome: Some(Ok(i420_of(data, self.image))),
                ..self
            },
            (ReadPhase::Unmap, ReadReply::Call(_)) => self.at(ReadPhase::Destroy),
            (ReadPhase::Destroy, ReadReply::Call(_)) => self.at(ReadPhase::Done),
            _ => self,
        }
    }

    /// The state after a sequence of replies.
    pub open spec fn run(self, replies: Seq<ReadReply>) -> Self
        decreases replies.len(),
    {
        if replies.len() == 0 {
            self
        } else {
            self.next(replies[0]).run(replies.skip(1))
        }
    }

    /// The calls that a sequence of replies answers.
    pub open spec fn trace(self, replies: Seq<ReadReply>) -> Seq<ReadAction>
        decreases replies.len(),
    {
        if replies.len() == 0 {
            seq![]
        } else {
            seq![self.action()] + self.next(replies[0]).trace(replies.skip(1))
        }
    }

    /// Every reply of a sequence is one that the state at its turn waits for.
    pub open spec fn awaits_all(self, replies: Seq<ReadReply>) -> bool
        decreases replies.len(),
    {
        replies.len() > 0 ==> self.awaits(replies[0]) && self.next(replies[0]).awaits_all(
            replies.skip(1),
        )
    }
}

/// The NV12 format: 12 bits per pixel, least significant byte first.
pub fn nv12_format() -> (format: VAImageFormat)
    ensures
        format.is_plain(VA_FOURCC_NV12, 1, 12),
{
    VAImageFormat {
        fourcc: VA_FOURCC_NV12,
        byte_order: 1,
        bits_per_pixel: 12,
        depth: 0,
        red_mask: 0,
        green_mask: 0,
        blue_mask: 0,
        alpha_mask: 0,
        va_reserved: [0; 4],
    }
}

/// The read-back of one surface, as a sequence of calls and replies. An image
/// that was created is destroyed, and a buffer that was mapped is unmapped,
/// whatever happens in between.
pub struct ReadBack {
    surface: VASurfaceID,
    width: u32,
    height: u32,
    phase: ReadPhase,
    image: VAImage,
    outcome: Option<Result<DecodedFrame, VaError>>,
}

impl View for ReadBack {
    type V = ReadBackView;

    closed spec fn view(&self) -> ReadBackView {
        ReadBackView {
            surface: self.surface,
            width: self.width,
            height: self.height,
            phase: self.phase,
            image: self.image,
            outcome: match self.outcome {
                Some(Ok(frame)) => Some(Ok(frame@)),
                Some(Err(error)) => Some(Err(error@)),
                None => None,
            },
        }
    }
}

impl ReadBack {
    /// A read-back of the upper left `width x height` of a surface, before
    /// its first call.
    pub fn new(surface: VASurfaceID, width: u32, height: u32) -> (read_back: Self)
        ensures
            read_back@.wf(),
            read_back@.is_initial(),
            read_back@.surface == surface,
            read_back@.width == width,
            read_back@.height == height,
            read_back@.image.is_zeroed(),
    {
        ReadBack {
            surface,
            width,
            height,
            phase: ReadPhase::Create,
            image: VAImage::zeroed(),
            outcome: None,
        }
    }

    /// What is needed next.
    pub fn action(&self) -> (action: ReadAction)
        ensures
            action == self@.action(),
    {
        match self.phase {
            ReadPhase::Create => ReadAction::CreateImage {
                width: self.width,
                height: self.height,
            },
            ReadPhase::Get => ReadAction::GetImage {
                surface: self.surface,
                width: self.width,
                height: self.height,
                image: self.image.image_id,
            },
            ReadPhase::MapBuffer => ReadAction::MapBuffer { buffer: self.image.buf },
            ReadPhase::Copy => ReadAction::Copy,
            ReadPhase::Unmap => ReadAction::UnmapBuffer { buffer: self.image.buf },
            ReadPhase::Destroy => ReadAction::DestroyImage { image: self.image.image_id },
            ReadPhase::Done => ReadAction::Finish,
        }
    }

    /// The image, as the driver filled it in.
    pub fn image(&self) -> (image: VAImage)
        ensures
            image == self@.image,
    {
        self.image
    }

    /// Take in the reply to `vaCreateImage`.
    pub fn image_created(&mut self, call: CallReply, image: VAImage)
        requires
            old(self)@.wf(),
            old(self)@.phase == ReadPhase::Create,
        ensures
            final(self)@.wf(),
            final(self)@ == old(self)@.next(ReadReply::Image(call, image)),
    {
        match call.check_as("vaCreateImage(NV12): ") {
            Ok(()) => {
                self.image = image;
                self.phase = ReadPhase::Get;
            },
            Err(error) => {
                self.outcome = Some(Err(error));
                self.phase = ReadPhase::Done;
            },
        }
    }

    /// Take in the reply to any later call.
    pub fn replied(&mut self, call: CallReply)
        requires
            old(self)@.wf(),
            old(self)@.awaits(ReadReply::Call(call)),
        ensures
            final(self)@.wf(),
            final(self)@ == old(self)@.next(ReadReply::Call(call)),
    {
        match self.phase {
            ReadPhase::Get => match call.check_as("vaGetImage(NV12): ") {
                Ok(()) => {
                    self.phase = ReadPhase::MapBuffer;
                },
                Err(error) => {
                    self.outcome = Some(Err(error));
                    self.phase = ReadPhase::Destroy;
                },
            },
            ReadPhase::MapBuffer => match call.check_as("vaMapBuffer(image): ") {
                Ok(()) => {
                    self.phase = ReadPhase::Copy;
                },
                Err(error) => {
                    self.outcome = Some(Err(error));
                    self.phase = ReadPhase::Destroy;
                },
            },
            ReadPhase::Unmap => {
                self.phase = ReadPhase::Destroy;
            },
            _ => {
                self.phase = ReadPhase::Done;
            },
        }
    }

    /// Copy the planes out of the mapped bytes.
    pub fn copy_out(&mut self, data: &[u8])
        requires
            old(self)@.wf(),
            old(self)@.phase == ReadPhase::Copy,
            nv12_fits(old(self)@.image, data@.len()),
        ensures
            final(self)@.wf(),
            final(self)@ == old(self)@.next(ReadReply::Bytes(data@)),
    {
        self.outcome = Some(Ok(copy_nv12_image_to_i420(data, &self.image)));
        self.phase = ReadPhase::Unmap;
    }

    /// The outcome of a finished read-back: the frame, or the first failure.
    pub fn finish(self) -> (outcome: Result<DecodedFrame, VaError>)
        requires
            self@.wf(),
            self@.phase == ReadPhase::Done,
        ensures
            match outcome {
                Ok(frame) => self@.outcome == Some(Ok::<FrameView, VaErrorView>(frame@))
                    && frame@.wf(),
                Err(error) => self@.outcome == Some(Err::<FrameView, VaErrorView>(error@)),
            },
    {
        self.outcome.unwrap()
    }
}

/// How often a call occurs in a sequence of calls.
pub open spec fn count_of(actions: Seq<ReadAction>, action: ReadAction) -> nat
    decreases actions.len(),
{
    if actions.len() == 0 {
        0
    } else {
        count_of(actions.skip(1), action) + if actions[0] == action {
            1nat
        } else {
            0nat
        }
    }
}

/// The first step of a run.
proof fn lemma_first_step(v: ReadBackView, replies: Seq<ReadReply>)
    requires
        replies.len() > 0,
    ensures
        v.run(replies) == v.next(replies[0]).run(replies.skip(1)),
        v.awaits_all(replies) ==> v.awaits(replies[0]) && v.next(replies[0]).awaits_all(
            replies.skip(1),
        ),
        forall|action: ReadAction| #[trigger]
            count_of(v.trace(replies), action) == count_of(
                v.next(replies[0]).trace(replies.skip(1)),
                action,
            ) + if v.action() == action {
                1nat
            } else {
                0nat
            },
{
    assert(v.trace(replies).skip(1) =~= v.next(replies[0]).trace(replies.skip(1)));
}

/// The call that a reply reports on succeeded.
pub open spec fn call_ok(reply: ReadReply) -> bool {
    match reply {
        ReadReply::Call(call) => call.ok(),
        ReadReply::Image(call, _) => call.ok(),
        ReadReply::Bytes(_) => true,
    }
}

/// A finished read-back in the phase `Destroy` destroys its image once, and
/// does nothing else.
proof fn lemma_destroy_step(v: ReadBackView, replies: Seq<ReadReply>)
    requires
        v.phase == ReadPhase::Destroy,
        v.awaits_all(replies),
        v.run(replies).phase == ReadPhase::Done,
    ensures
        replies.len() == 1,
        v.run(replies) == v.at(ReadPhase::Done),
        forall|action: ReadAction| #[trigger]
            count_of(v.trace(replies), action) == if action == v.action() {
                1nat
            } else {
                0nat
            },
{
    assert(replies.len() > 0);
    lemma_first_step(v, replies);
    let rest = replies.skip(1);
    assert(rest.len() == 0) by {
        if rest.len() > 0 {
            assert(v.next(replies[0]).awaits_all(rest));
        }
    }
}

/// What a finished read-back has done. Where the image was created it was
/// destroyed exactly once, otherwise nothing was destroyed. Its buffer was
/// unmapped exactly once where it had been mapped, otherwise never. The
/// read-back succeeded exactly when the image was created, filled and mapped,
/// and then gives the samples of the mapped bytes.
pub proof fn law_read_back_releases_what_it_took(v: ReadBackView, replies: Seq<ReadReply>)
    requires
        v.is_initial(),
        v.awaits_all(replies),
        v.run(replies).phase == ReadPhase::Done,
    ensures
        replies.len() > 0,
        replies[0] matches ReadReply::Image(call, image) && {
            let mapped = call.ok() && replies.len() >= 3 && call_ok(replies[1]) && call_ok(
                replies[2],
            );
            &&& count_of(v.trace(replies), ReadAction::DestroyImage { image: image.image_id })
                == if call.ok() {
                1nat
            } else {
                0nat
            }
            &&& count_of(v.trace(replies), ReadAction::UnmapBuffer { buffer: image.buf })
                == if mapped {
                1nat
            } else {
                0nat
            }
            &&& match v.run(replies).outcome {
                Some(Ok(frame)) => mapped && replies.len() >= 4 && (
                replies[3] matches ReadReply::Bytes(data) && frame == i420_of(data, image)),
                Some(Err(_)) => !mapped,
                None => false,
            }
        },
{
    assert(replies.len() > 0);
    lemma_first_step(v, replies);
    let (v1, r1) = (v.next(replies[0]), replies.skip(1));
    if v1.phase == ReadPhase::Done {
        assert(r1.len() == 0) by {
            assert(v1.awaits_all(r1));
        }
    } else {
        assert(r1.len() > 0);
        lemma_first_step(v1, r1);
        let (v2, r2) = (v1.next(r1[0]), r1.skip(1));
        if v2.phase == ReadPhase::Destroy {
            lemma_destroy_step(v2, r2);
        } else {
            assert(r2.len() > 0);
            lemma_first_step(v2, r2);
            let (v3, r3) = (v2.next(r2[0]), r2.skip(1));
            if v3.phase == ReadPhase::Destroy {
                lemma_destroy_step(v3, r3);
            } else {
                assert(r3.len() > 0);
                lemma_first_step(v3, r3);
                let (v4, r4) = (v3.next(r3[0]), r3.skip(1));
                assert(r4.len() > 0);
                lemma_first_step(v4, r4);
                lemma_destroy_step(v4.next(r4[0]), r4.skip(1));
            }
        }
    }
}

/// The format that is asked for: NV12, 12 bits per pixel, least significant
/// byte first, without masks.
pub proof fn law_read_backs_ask_for_nv12(format: VAImageFormat)
    requires
        call_ensures(nv12_format, (), format),
    ensures
        format.fourcc == 'N' as int + 256 * ('V' as int) + 65536 * ('1' as int) + 16777216 * (
        '2' as int),
        format.byte_order == 1,
        format.bits_per_pixel == 12,
        format.depth == 0,
        format.red_mask == 0 && format.green_mask == 0,
        format.blue_mask == 0 && format.alpha_mask == 0,
{
}

/// A read-back begins with the image, and asks for what its state says.
pub proof fn law_read_backs_begin_with_an_image(
    surface: VASurfaceID,
    width: u32,
    height: u32,
    read_back: ReadBack,
    asked: &ReadBack,
    action: ReadAction,
    image: VAImage,
)
    requires
        call_ensures(ReadBack::new, (surface, width, height), read_back),
        call_ensures(ReadBack::action, (asked,), action),
        call_ensures(ReadBack::image, (asked,), image),
    ensures
        read_back@.action() == (ReadAction::CreateImage { width, height }),
        read_back@.surface == surface && read_back@.width == width && read_back@.height == height,
        read_back@.outcome is None,
        action == asked@.action(),
        image == asked@.image,
{
}

/// An image that was created is filled from the surface, at the size that is
/// read. Where it could not be created that is reported, and nothing is left
/// to do.
pub proof fn law_images_are_filled(read_back: &mut ReadBack, call: CallReply, image: VAImage)
    requires
        old(read_back)@.wf(),
        old(read_back)@.action() is CreateImage,
        call_ensures(ReadBack::image_created, (read_back, call, image), ()),
    ensures
        call.status == 0 ==> final(read_back)@.image == image && final(read_back)@.outcome is None
            && final(read_back)@.action() == (ReadAction::GetImage {
            surface: old(read_back)@.surface,
            width: old(read_back)@.width,
            height: old(read_back)@.height,
            image: image.image_id,
        }),
        call.status != 0 ==> final(read_back)@.action() is Finish && final(read_back)@.outcome
            == Some(
            Err::<FrameView, VaErrorView>(
                VaErrorView::Va {
                    status: call.status,
                    message: "vaCreateImage(NV12): "@ + call.message(),
                },
            ),
        ),
{
}

/// The calls behind the image. One that was filled is mapped, and then copied;
/// where one of these fails that is reported and the image is destroyed.
/// Copied bytes are unmapped, then the image is destroyed, and then the
/// read-back is done; whether these succeed makes no difference.
pub proof fn law_images_are_mapped_and_given_back(read_back: &mut ReadBack, call: CallReply)
    requires
        old(read_back)@.wf(),
        call_ensures(ReadBack::replied, (read_back, call), ()),
    ensures
        final(read_back)@.image == old(read_back)@.image,
        old(read_back)@.action() is GetImage ==> {
            &&& call.status == 0 ==> final(read_back)@.outcome is None && final(read_back)@.action()
                == (ReadAction::MapBuffer { buffer: old(read_back)@.image.buf })
            &&& call.status != 0 ==> final(read_back)@.action() == (ReadAction::DestroyImage {
                image: old(read_back)@.image.image_id,
            }) && final(read_back)@.outcome == Some(
                Err::<FrameView, VaErrorView>(
                    VaErrorView::Va {
                        status: call.status,
                        message: "vaGetImage(NV12): "@ + call.message(),
                    },
                ),
            )
        },
        old(read_back)@.action() is MapBuffer ==> {
            &&& call.status == 0 ==> final(read_back)@.outcome is None && final(read_back)@.action()
                is Copy
            &&& call.status != 0 ==> final(read_back)@.action() == (ReadAction::DestroyImage {
                image: old(read_back)@.image.image_id,
            }) && final(read_back)@.outcome == Some(
                Err::<FrameView, VaErrorView>(
                    VaErrorView::Va {
                        status: call.status,
                        message: "vaMapBuffer(image): "@ + call.message(),
                    },
                ),
            )
        },
        old(read_back)@.action() is UnmapBuffer ==> final(read_back)@.action() == (
        ReadAction::DestroyImage { image: old(read_back)@.image.image_id })
            && final(read_back)@.outcome == old(read_back)@.outcome,
        old(read_back)@.action() is DestroyImage ==> final(read_back)@.action() is Finish
            && final(read_back)@.outcome == old(read_back)@.outcome,
{
}

/// The frame that is read back holds the samples of the mapped bytes: luma at
/// its row and column, chroma in pairs. The buffer is unmapped next.
pub proof fn law_mapped_bytes_become_the_frame(
    read_back: &mut ReadBack,
    data: &[u8],
    row: nat,
    col: nat,
)
    requires
        old(read_back)@.action() is Copy,
        call_ensures(ReadBack::copy_out, (read_back, data), ()),
    ensures
        final(read_back)@.action() == (ReadAction::UnmapBuffer {
            buffer: old(read_back)@.image.buf,
        }),
        final(read_back)@.outcome matches Some(Ok(frame)) && {
            let image = old(read_back)@.image;
            &&& frame.width == image.width && frame.height == image.height
            &&& row < image.height && col < image.width ==> frame.y[(row * image.width as nat
                + col) as int] == data@[(image.offsets@[0] + row * image.pitches@[0] + col) as int]
            &&& row < image.height / 2 && col < image.width / 2 ==> {
                let pair = image.offsets@[1] + row * image.pitches@[1] + 2 * col;
                let sample = (row * (image.width as nat / 2) + col) as int;
                frame.u[sample] == data@[pair as int] && frame.v[sample] == data@[pair as int + 1]
            }
        },
{
    let image = old(read_back)@.image;
    let (w, h) = (image.width as nat, image.height as nat);
    let (p0, p1) = (image.pitches@[0] as nat, image.pitches@[1] as nat);
    let (o0, o1) = (image.offsets@[0] as nat, image.offsets@[1] as nat);
    if row < h && col < w {
        lemma_plane_sample(data@, o0, p0, 1, w, h, row, col);
    }
    if row < h / 2 && col < w / 2 {
        lemma_plane_sample(data@, o1, p1, 2, w / 2, h / 2, row, col);
        lemma_plane_sample(data@, o1 + 1, p1, 2, w / 2, h / 2, row, col);
    }
}

/// A read-back ends with the frame or the failure that its state holds.
pub proof fn law_read_backs_end_with_their_outcome(
    read_back: ReadBack,
    outcome: Result<DecodedFrame, VaError>,
)
    requires
        call_ensures(ReadBack::finish, (read_back,), outcome),
    ensures
        outcome matches Ok(frame) ==> read_back@.outcome == Some(
            Ok::<FrameView, VaErrorView>(frame@),
        ),
        outcome matches Err(error) ==> read_back@.outcome == Some(
            Err::<FrameView, VaErrorView>(error@),
        ),
{
}

} // verus!
